use mouseutility::device::Transport;
use mouseutility::interfaces::{interface_base, interface_collection, interface_transport, join_group, Group};
use mouseutility::report::Collection;

#[test]
fn transports() {
    assert_eq!(interface_transport(0x046d, 0xff00, 0xc54d), Some(Transport::Receiver));
    assert_eq!(interface_transport(0x046d, 0xff00, 0xc09d), Some(Transport::Usb));
    assert_eq!(interface_transport(0x046d, 0xff43, 0xb023), Some(Transport::Bluetooth));
    assert_eq!(interface_transport(0x046d, 0x0001, 0xc54d), None);
    assert_eq!(interface_transport(0x1532, 0xff00, 0xc54d), None);
}

#[test]
fn collections() {
    assert_eq!(interface_collection(Transport::Receiver, 1), Collection::Short);
    assert_eq!(interface_collection(Transport::Receiver, 2), Collection::Long);
    assert_eq!(interface_collection(Transport::Bluetooth, 1), Collection::Long);
    assert_eq!(interface_collection(Transport::Usb, 1), Collection::Short);
}

#[test]
fn bases() {
    assert_eq!(
        interface_base(r"\\?\HID#VID_046D&PID_C54D&MI_02&Col01#8&2A1B&0&0000#{4D1E55B2}"),
        r"\\?\hid#vid_046d&pid_c54d&mi_02"
    );
    assert_eq!(interface_base("/dev/HIDRAW3"), "/dev/hidraw3");
    assert_eq!(interface_base("&Col"), "");
    assert_eq!(interface_base("a&col&Col02"), "a&col");
}

#[test]
fn grouping() {
    let mut gs: Vec<Group> = Vec::new();
    join_group(&mut gs, "a".to_string(), 0xc54d, "Receiver".to_string(), Transport::Receiver, 1, 0);
    join_group(&mut gs, "b".to_string(), 0xb023, "MX".to_string(), Transport::Bluetooth, 2, 1);
    join_group(&mut gs, "a".to_string(), 0xc54d, "Other".to_string(), Transport::Receiver, 2, 2);
    assert_eq!(gs.len(), 2);
    assert_eq!((gs[0].short, gs[0].long, gs[0].product.as_str()), (Some(0), Some(2), "Receiver"));
    assert_eq!((gs[1].short, gs[1].long), (None, Some(1)));
    let r = gs[1].receiver();
    assert_eq!((r.pid, r.product.as_str(), r.transport), (0xb023, "MX", Transport::Bluetooth));
    // a later collection of the same kind replaces the earlier one
    join_group(&mut gs, "a".to_string(), 0xc54d, "Receiver".to_string(), Transport::Receiver, 1, 3);
    assert_eq!(gs[0].short, Some(3));
}
