# mouseutility

A terminal utility that reads Logitech receivers and the mice paired to them
(battery, DPI, report rate) over HID++, with the protocol logic verified in
Verus.

## Layout

- `src/` — the verified library:
  - `report` — HID++ request reports, reply matching, collection choice;
  - `query` — each HID++ 2.0 question (feature lookup, name, battery, DPI,
    report rate, DPI and rate writes) as a state machine that says which
    request to send next and what the replies mean;
  - `scan` — probing one device and listing a receiver's pairing slots, as
    state machines over the same requests;
  - `dpi`, `rate`, `battery` — decoding of the sensor's DPI lists, DPI
    snapping, report-rate tables, battery readings;
  - `device`, `interfaces` — receivers, paired devices, and grouping the HID
    collections of one interface;
  - `app_state` — the screen's state: selection, modals, keys, scan results;
  - `panel` — the rows of the device list (or its message when it has
    none) and the lines of the details panel;
  - `dialog` — the texts of the DPI dialog, and reading the typed value;
  - `labels`, `text` — the device texts of the screen and `--list` (names,
    battery labels and gauge band, DPI notes, link lines), numerals and
    trimming.
- `app/` — the program: HID handles (`hidapi`), the event loop and drawing
  (`ratatui`), configuration (`serde`), and the calls into `utility_core`.
  It sends the requests the library's queries ask for and feeds the replies
  back.
- `tests/` — tests of the library.
