//! The decisions of the interactive screen: the device list and its
//! selection, the modals, and what each key and background event does.

use vstd::prelude::*;
use crate::device::{Device, DeviceView};
use crate::text::{decimal, decimal_chars, string_from_chars};

verus! {

/// Plain snapshot of one receiver and its paired devices (no handles).
#[derive(Debug, Clone)]
pub struct ReceiverInfo {
    pub pid: u16,
    pub kind: &'static str,
    pub devices: Vec<Device>,
}

/// What the background threads report.
pub enum AppEvent {
    /// The newest release tag, if a newer one exists.
    LatestRelease(Option<String>),
    /// A step of a running self-update.
    Progress(String),
    /// The self-update ended: its message, or why it failed.
    Finished(core::result::Result<String, String>),
    /// A scan of the receivers ended.
    Scanned(core::result::Result<Vec<ReceiverInfo>, String>),
}

pub enum Modal {
    Closed,
    Help,
    Update { steps: Vec<String>, done: Option<core::result::Result<String, String>> },
}

/// A key, as far as the screen tells keys apart.
#[derive(Debug, Clone, Copy, PartialEq, Eq, Structural)]
pub enum Key {
    Char(char),
    Enter,
    Esc,
    Up,
    Down,
    Other,
}

/// What the owner of the threads and files does after a key.
#[derive(Debug, Clone, Copy, PartialEq, Eq, Structural)]
pub enum KeyAction {
    Nothing,
    /// Save the configuration (auto-update was toggled).
    SaveConfig,
    /// Run the self-update in the background.
    StartUpdate,
    /// Copy the session log to the clipboard.
    CopyLog,
    /// Show "rescanning…"; start a scan when `started`.
    Rescan { started: bool },
}

/// The plain state of the screen.
pub struct AppState {
    pub modal: Modal,
    /// Newer release tag, if any.
    pub update: Option<String>,
    /// Whether the configuration asks for updates at launch.
    pub auto_update: bool,
    pub restart_requested: bool,
    pub receivers: Vec<ReceiverInfo>,
    pub scan_error: Option<String>,
    /// Selected entry in the flattened device list.
    pub sel: usize,
    pub scanning: bool,
    pub quit: bool,
}

/// All devices across receivers, in order, each with its receiver's index.
pub open spec fn flat(rs: Seq<ReceiverInfo>) -> Seq<(usize, Device)>
    decreases rs.len(),
{
    if rs.len() == 0 {
        Seq::empty()
    } else {
        let i = (rs.len() - 1) as usize;
        flat(rs.drop_last()) + rs.last().devices@.map_values(|d: Device| (i, d))
    }
}

/// The number of devices across receivers.
pub open spec fn total_devices(rs: Seq<ReceiverInfo>) -> nat {
    flat(rs).len()
}

/// The device count as a machine word (it cannot exceed one: each device is in memory).
pub open spec fn count_word(rs: Seq<ReceiverInfo>) -> nat {
    if total_devices(rs) <= usize::MAX { total_devices(rs) } else { usize::MAX as nat }
}

pub(crate) proof fn lemma_flat_push(rs: Seq<ReceiverInfo>, r: ReceiverInfo)
    ensures
        flat(rs.push(r)) == flat(rs) + r.devices@.map_values(|d: Device| (rs.len() as usize, d)),
{
    assert(rs.push(r).drop_last() =~= rs);
}

/// How many devices the receivers hold.
pub fn device_count(rs: &Vec<ReceiverInfo>) -> (n: usize)
    ensures
        n == count_word(rs@),
{
    let mut n: usize = 0;
    let mut i: usize = 0;
    assert(rs@.take(0) =~= Seq::<ReceiverInfo>::empty());
    while i < rs.len()
        invariant
            i <= rs@.len(),
            n == count_word(rs@.take(i as int)),
        decreases rs@.len() - i,
    {
        let k = rs[i].devices.len();
        proof {
            lemma_flat_push(rs@.take(i as int), rs@[i as int]);
            assert(rs@.take(i + 1) =~= rs@.take(i as int).push(rs@[i as int]));
        }
        n = if n > usize::MAX - k { usize::MAX } else { n + k };
        i = i + 1;
    }
    assert(rs@.take(rs@.len() as int) =~= rs@);
    n
}

/// All devices across receivers, with their receiver index.
pub fn all_devices<'a>(rs: &'a Vec<ReceiverInfo>) -> (v: Vec<(usize, &'a Device)>)
    ensures
        v@.len() == flat(rs@).len(),
        forall|k: int| 0 <= k < v@.len() ==> (#[trigger] v@[k]).0 == flat(rs@)[k].0 && *v@[k].1
            == flat(rs@)[k].1,
{
    let mut v: Vec<(usize, &'a Device)> = Vec::new();
    let mut i: usize = 0;
    assert(rs@.take(0) =~= Seq::<ReceiverInfo>::empty());
    while i < rs.len()
        invariant
            i <= rs@.len(),
            v@.len() == flat(rs@.take(i as int)).len(),
            forall|k: int| 0 <= k < v@.len() ==> (#[trigger] v@[k]).0 == flat(rs@.take(i as int))[k].0
                && *v@[k].1 == flat(rs@.take(i as int))[k].1,
        decreases rs@.len() - i,
    {
        let ghost before = flat(rs@.take(i as int));
        let ghost base = v@.len();
        let r = &rs[i];
        let mut j: usize = 0;
        while j < r.devices.len()
            invariant
                j <= r.devices@.len(),
                i < rs@.len(),
                *r == rs@[i as int],
                v@.len() == base + j,
                forall|k: int| 0 <= k < base ==> (#[trigger] v@[k]).0 == before[k].0 && *v@[k].1 == before[k].1,
                forall|k: int| 0 <= k < j ==> (#[trigger] v@[base + k]).0 == i && *v@[base + k].1 == r.devices@[k],
                base == before.len(),
            decreases r.devices@.len() - j,
        {
            v.push((i, &r.devices[j]));
            j = j + 1;
        }
        proof {
            lemma_flat_push(rs@.take(i as int), rs@[i as int]);
            assert(rs@.take(i + 1) =~= rs@.take(i as int).push(rs@[i as int]));
            let after = flat(rs@.take(i + 1));
            assert forall|k: int| 0 <= k < v@.len() implies (#[trigger] v@[k]).0 == after[k].0 && *v@[k].1 == after[k].1 by {
                if k >= base {
                    assert(v@[base + (k - base)] == v@[k]);
                }
            }
        }
        i = i + 1;
    }
    assert(rs@.take(rs@.len() as int) =~= rs@);
    v
}

/// The selection after an up key: one back, wrapping to the end.
pub open spec fn select_up(sel: int, n: int) -> int {
    if n > 0 { (sel + n - 1) % n } else { sel }
}

/// The selection after a down key: one on, wrapping to the start.
pub open spec fn select_down(sel: int, n: int) -> int {
    if n > 0 { (sel + 1) % n } else { sel }
}

/// The selection after a scan: held within the new list.
pub open spec fn clamp_selection(sel: int, n: int) -> int {
    let last = if n > 0 { n - 1 } else { 0 };
    if sel < last { sel } else { last }
}

/// What a key does to the modal, the selection and the flags.
pub open spec fn key_outcome(
    s: AppState,
    k: Key,
    ctrl: bool,
    installed: bool,
    after: AppState,
    act: KeyAction,
) -> bool {
    let n = count_word(s.receivers@) as int;
    let same_lists = after.receivers@ == s.receivers@ && after.update == s.update && after.scan_error == s.scan_error;
    match s.modal {
        Modal::Help => {
            &&& after.modal is Closed
            &&& same_lists && after.sel == s.sel && after.auto_update == s.auto_update
            &&& after.quit == s.quit && after.restart_requested == s.restart_requested
            &&& after.scanning == s.scanning
            &&& act == KeyAction::Nothing
        },
        Modal::Update { steps, done } => {
            &&& same_lists && after.sel == s.sel && after.scanning == s.scanning
            &&& if k == Key::Char('a') && done matches Some(Ok(_)) {
                &&& after.auto_update == !s.auto_update
                &&& act == KeyAction::SaveConfig
                &&& after.quit == s.quit && after.restart_requested == s.restart_requested
                &&& after.modal == s.modal
            } else if k == Key::Enter && (done matches Some(Ok(_))) && installed {
                &&& after.restart_requested && after.quit
                &&& after.auto_update == s.auto_update
                &&& act == KeyAction::Nothing
                &&& after.modal == s.modal
            } else if (k == Key::Esc || k == Key::Enter || k == Key::Char('q')) && done is Some {
                &&& after.modal is Closed
                &&& after.auto_update == s.auto_update && after.quit == s.quit
                &&& after.restart_requested == s.restart_requested
                &&& act == KeyAction::Nothing
            } else {
                &&& after.modal == s.modal
                &&& after.auto_update == s.auto_update && after.quit == s.quit
                &&& after.restart_requested == s.restart_requested
                &&& act == KeyAction::Nothing
            }
        },
        Modal::Closed => {
            &&& same_lists && after.auto_update == s.auto_update
            &&& after.restart_requested == s.restart_requested
            &&& if k == Key::Char('q') || k == Key::Esc || (k == Key::Char('c') && ctrl) {
                after.quit && after.modal is Closed && after.sel == s.sel && after.scanning == s.scanning
                    && act == KeyAction::Nothing
            } else if k == Key::Char('?') {
                after.modal is Help && after.quit == s.quit && after.sel == s.sel && after.scanning
                    == s.scanning && act == KeyAction::Nothing
            } else if k == Key::Char('U') {
                &&& after.modal matches Modal::Update { steps, done } && steps@.len() == 0 && done is None
                &&& after.quit == s.quit && after.sel == s.sel && after.scanning == s.scanning
                &&& act == KeyAction::StartUpdate
            } else if k == Key::Char('c') {
                after.modal is Closed && after.quit == s.quit && after.sel == s.sel && after.scanning
                    == s.scanning && act == KeyAction::CopyLog
            } else if k == Key::Up || k == Key::Char('k') {
                after.modal is Closed && after.quit == s.quit && after.sel == select_up(s.sel as int, n)
                    && after.scanning == s.scanning && act == KeyAction::Nothing
            } else if k == Key::Down || k == Key::Char('j') {
                after.modal is Closed && after.quit == s.quit && after.sel == select_down(s.sel as int, n)
                    && after.scanning == s.scanning && act == KeyAction::Nothing
            } else if k == Key::Char('r') {
                after.modal is Closed && after.quit == s.quit && after.sel == s.sel && after.scanning
                    && act == KeyAction::Rescan { started: !s.scanning }
            } else {
                after.modal is Closed && after.quit == s.quit && after.sel == s.sel && after.scanning
                    == s.scanning && act == KeyAction::Nothing
            }
        },
    }
}

/// "scan: R receiver(s), D device(s)".
pub open spec fn scan_log_text(receivers: nat, devices: nat) -> Seq<char> {
    "scan: "@ + decimal(receivers) + " receiver(s), "@ + decimal(devices) + " device(s)"@
}

impl AppState {
    pub fn new(auto_update: bool) -> (s: AppState)
        ensures
            s.modal is Closed,
            s.update is None,
            s.auto_update == auto_update,
            !s.restart_requested,
            s.receivers@.len() == 0,
            s.scan_error is None,
            s.sel == 0,
            !s.scanning,
            !s.quit,
    {
        AppState {
            modal: Modal::Closed,
            update: None,
            auto_update,
            restart_requested: false,
            receivers: Vec::new(),
            scan_error: None,
            sel: 0,
            scanning: false,
            quit: false,
        }
    }

    /// All devices across receivers, with their receiver index.
    pub fn devices(&self) -> (v: Vec<(usize, &Device)>)
        ensures
            v@.len() == flat(self.receivers@).len(),
            forall|k: int| 0 <= k < v@.len() ==> (#[trigger] v@[k]).0 == flat(self.receivers@)[k].0
                && *v@[k].1 == flat(self.receivers@)[k].1,
    {
        all_devices(&self.receivers)
    }

    /// The selected device, with its receiver index.
    pub fn selected(&self) -> (o: Option<(usize, &Device)>)
        ensures
            self.sel < flat(self.receivers@).len() ==> (o matches Some(p) && p.0 == flat(
                self.receivers@,
            )[self.sel as int].0 && *p.1 == flat(self.receivers@)[self.sel as int].1),
            self.sel >= flat(self.receivers@).len() ==> o is None,
    {
        let v = self.devices();
        if self.sel < v.len() {
            Some(v[self.sel])
        } else {
            None
        }
    }

    /// Start a scan unless one runs; says whether it started.
    pub fn begin_scan(&mut self) -> (started: bool)
        ensures
            started == !old(self).scanning,
            final(self).scanning,
            final(self).sel == old(self).sel,
            final(self).receivers@ == old(self).receivers@,
            final(self).quit == old(self).quit,
            final(self).modal == old(self).modal,
            final(self).update == old(self).update,
            final(self).scan_error == old(self).scan_error,
            final(self).auto_update == old(self).auto_update,
            final(self).restart_requested == old(self).restart_requested,
    {
        if self.scanning {
            return false;
        }
        self.scanning = true;
        true
    }

    /// A background event. A finished scan replaces the receivers (clearing
    /// any scan error) and holds the selection within the new list, or keeps
    /// them and records the error; it returns the line to log when it is the
    /// first scan that found receivers' list empty before.
    pub fn on_event(&mut self, ev: AppEvent) -> (log: Option<String>)
        ensures
            match ev {
                AppEvent::LatestRelease(tag) => final(self).update == tag && log is None,
                AppEvent::Progress(st) => log is None && (old(self).modal matches Modal::Update { steps, done }
                    ==> final(self).modal matches Modal::Update { steps: s2, done: d2 } && s2@ == steps@.push(st) && d2 == done),
                AppEvent::Finished(r) => log is None && (old(self).modal matches Modal::Update { steps, .. }
                    ==> final(self).modal matches Modal::Update { steps: s2, done: d2 } && s2@ == steps@ && d2 == Some(r)),
                AppEvent::Scanned(Ok(rs)) => {
                    &&& !final(self).scanning
                    &&& final(self).receivers@ == rs@
                    &&& final(self).scan_error is None
                    &&& final(self).sel == clamp_selection(old(self).sel as int, count_word(rs@) as int)
                    &&& (old(self).receivers@.len() == 0 ==> (log matches Some(l) && l@ == scan_log_text(rs@.len(), count_word(rs@))))
                    &&& (old(self).receivers@.len() != 0 ==> log is None)
                },
                AppEvent::Scanned(Err(e)) => {
                    &&& !final(self).scanning
                    &&& final(self).receivers@ == old(self).receivers@
                    &&& final(self).scan_error == Some(e)
                    &&& final(self).sel == old(self).sel
                    &&& log is None
                },
            },
            !(ev is LatestRelease) ==> final(self).update == old(self).update,
            !(ev is Scanned) ==> {
                &&& final(self).receivers@ == old(self).receivers@
                &&& final(self).sel == old(self).sel
                &&& final(self).scanning == old(self).scanning
                &&& final(self).scan_error == old(self).scan_error
            },
            (ev is LatestRelease || ev is Scanned) ==> final(self).modal == old(self).modal,
            final(self).quit == old(self).quit,
            final(self).auto_update == old(self).auto_update,
            final(self).restart_requested == old(self).restart_requested,
            (old(self).modal is Closed) ==> (final(self).modal is Closed),
            (old(self).modal is Help) ==> (final(self).modal is Help),
    {
        match ev {
            AppEvent::LatestRelease(tag) => {
                self.update = tag;
                None
            },
            AppEvent::Progress(st) => {
                if let Modal::Update { steps, done } = &mut self.modal {
                    steps.push(st);
                }
                None
            },
            AppEvent::Finished(r) => {
                if let Modal::Update { steps, done } = &mut self.modal {
                    *done = Some(r);
                }
                None
            },
            AppEvent::Scanned(r) => {
                self.scanning = false;
                match r {
                    Ok(rs) => {
                        let mut log = None;
                        let n = device_count(&rs);
                        if self.receivers.len() == 0 {
                            log = Some(scan_log_line(rs.len(), n));
                        }
                        self.receivers = rs;
                        self.scan_error = None;
                        let last = if n > 0 { n - 1 } else { 0 };
                        self.sel = if self.sel < last { self.sel } else { last };
                        log
                    },
                    Err(e) => {
                        self.scan_error = Some(e);
                        None
                    },
                }
            },
        }
    }

    /// A key press (`ctrl` when Control is held). `installed` says whether
    /// the finished update's message reports a new version in place (only
    /// consulted for Enter in the update modal).
    pub fn on_key(&mut self, k: Key, ctrl: bool, installed: bool) -> (act: KeyAction)
        ensures
            key_outcome(*old(self), k, ctrl, installed, *final(self), act),
    {
        let n = device_count(&self.receivers);
        let mut close_modal = false;
        match &self.modal {
            Modal::Help => {
                self.modal = Modal::Closed;
                return KeyAction::Nothing;
            },
            Modal::Update { done, .. } => {
                let ok = matches!(done, Some(Ok(_)));
                let some = done.is_some();
                if k == Key::Char('a') && ok {
                    self.auto_update = !self.auto_update;
                    return KeyAction::SaveConfig;
                } else if k == Key::Enter && ok && installed {
                    self.restart_requested = true;
                    self.quit = true;
                    return KeyAction::Nothing;
                } else if (k == Key::Esc || k == Key::Enter || k == Key::Char('q')) && some {
                    close_modal = true;
                } else {
                    return KeyAction::Nothing;
                }
            },
            Modal::Closed => {},
        }
        if close_modal {
            self.modal = Modal::Closed;
            return KeyAction::Nothing;
        }
        if k == Key::Char('q') || k == Key::Esc || (k == Key::Char('c') && ctrl) {
            self.quit = true;
            KeyAction::Nothing
        } else if k == Key::Char('?') {
            self.modal = Modal::Help;
            KeyAction::Nothing
        } else if k == Key::Char('U') {
            self.modal = Modal::Update { steps: Vec::new(), done: None };
            KeyAction::StartUpdate
        } else if k == Key::Char('c') {
            KeyAction::CopyLog
        } else if k == Key::Up || k == Key::Char('k') {
            if n > 0 {
                let sel = self.sel;
                proof {
                    if sel >= 1 && sel <= n {
                        vstd::arithmetic::div_mod::lemma_mod_add_multiples_vanish((sel - 1) as int, n as int);
                        vstd::arithmetic::div_mod::lemma_small_mod((sel - 1) as nat, n as nat);
                    } else if sel == 0 {
                        vstd::arithmetic::div_mod::lemma_small_mod((n - 1) as nat, n as nat);
                    }
                }
                self.sel = if sel == 0 { n - 1 } else if sel <= n { sel - 1 } else {
                    up_wrapped(sel, n)
                };
            }
            KeyAction::Nothing
        } else if k == Key::Down || k == Key::Char('j') {
            if n > 0 {
                let sel = self.sel;
                proof {
                    if sel < n - 1 {
                        vstd::arithmetic::div_mod::lemma_small_mod((sel + 1) as nat, n as nat);
                    } else if sel == n - 1 {
                        vstd::arithmetic::div_mod::lemma_mod_self_0(n as int);
                    }
                }
                self.sel = if sel < n - 1 { sel + 1 } else if sel == n - 1 { 0 } else {
                    down_wrapped(sel, n)
                };
            }
            KeyAction::Nothing
        } else if k == Key::Char('r') {
            let started = self.begin_scan();
            KeyAction::Rescan { started }
        } else {
            KeyAction::Nothing
        }
    }
}

/// `(sel + n - 1) % n` for a selection past the list, without overflow.
fn up_wrapped(sel: usize, n: usize) -> (r: usize)
    requires
        n > 0,
        sel > n,
    ensures
        r == (sel + n - 1) % (n as int),
{
    let r = (sel - 1) % n;
    assert(r == (sel + n - 1) % (n as int)) by (nonlinear_arith)
        requires
            n > 0,
            sel > n,
            r as int == (sel - 1) as int % (n as int),
    {
        vstd::arithmetic::div_mod::lemma_mod_add_multiples_vanish((sel - 1) as int, n as int);
    }
    r
}

/// `(sel + 1) % n` for a selection past the list, without overflow.
fn down_wrapped(sel: usize, n: usize) -> (r: usize)
    requires
        n > 0,
        sel >= n,
    ensures
        r == (sel + 1) % (n as int),
{
    let m = sel % n;
    let r = if m + 1 == n { 0 } else { m + 1 };
    assert(r == (sel + 1) % (n as int)) by (nonlinear_arith)
        requires
            n > 0,
            m as int == (sel as int) % (n as int),
            r == (if m + 1 == n { 0 } else { m + 1 }),
    {
        vstd::arithmetic::div_mod::lemma_add_mod_noop(sel as int, 1, n as int);
        vstd::arithmetic::div_mod::lemma_mod_bound(sel as int, n as int);
    }
    r
}

fn scan_log_line(receivers: usize, devices: usize) -> (s: String)
    ensures
        s@ == scan_log_text(receivers as nat, devices as nat),
{
    let mut s = String::from_str("scan: ");
    s.append(string_from_chars(&decimal_chars(receivers as u64)).as_str());
    s.append(" receiver(s), ");
    s.append(string_from_chars(&decimal_chars(devices as u64)).as_str());
    s.append(" device(s)");
    s
}

/// The status line of a clipboard copy: the count copied, or the error.
pub open spec fn copy_status_text(r: core::result::Result<usize, String>) -> (Seq<char>, bool) {
    match r {
        Ok(n) => ("copied "@ + decimal(n as nat) + " log lines to the clipboard"@, false),
        Err(e) => (e@, true),
    }
}

pub fn copy_status(r: core::result::Result<usize, String>) -> (st: (String, bool))
    ensures
        (st.0@, st.1) == copy_status_text(r),
{
    match r {
        Ok(n) => {
            let mut s = String::from_str("copied ");
            s.append(string_from_chars(&decimal_chars(n as u64)).as_str());
            s.append(" log lines to the clipboard");
            (s, false)
        },
        Err(e) => (e, true),
    }
}

/// A status line older than five seconds is cleared.
pub fn status_expired(age_nanos: u128) -> (b: bool)
    ensures
        b == (age_nanos > 5_000_000_000),
{
    age_nanos > 5_000_000_000
}

/// The live refresh: a new scan when none runs and the last one is over four seconds old.
pub fn refresh_due(scanning: bool, since_last_scan_nanos: Option<u128>) -> (b: bool)
    ensures
        b == (!scanning && (since_last_scan_nanos matches Some(t) && t > 4_000_000_000)),
{
    !scanning && match since_last_scan_nanos {
        Some(t) => t > 4_000_000_000,
        None => false,
    }
}


/// Moving the selection keeps it inside a non-empty list, and a move down
/// undoes a move up (and the reverse).
pub proof fn law_selection_moves(sel: int, n: int)
    requires
        0 <= sel < n,
    ensures
        0 <= select_up(sel, n) < n,
        0 <= select_down(sel, n) < n,
        select_down(select_up(sel, n), n) == sel,
        select_up(select_down(sel, n), n) == sel,
{
    vstd::arithmetic::div_mod::lemma_mod_bound(sel + n - 1, n);
    vstd::arithmetic::div_mod::lemma_mod_bound(sel + 1, n);
    if sel == 0 {
        vstd::arithmetic::div_mod::lemma_small_mod((n - 1) as nat, n as nat);
        vstd::arithmetic::div_mod::lemma_mod_self_0(n);
    } else {
        vstd::arithmetic::div_mod::lemma_mod_add_multiples_vanish(sel - 1, n);
        vstd::arithmetic::div_mod::lemma_small_mod((sel - 1) as nat, n as nat);
        vstd::arithmetic::div_mod::lemma_small_mod(sel as nat, n as nat);
    }
    if sel == n - 1 {
        vstd::arithmetic::div_mod::lemma_mod_self_0(n);
        vstd::arithmetic::div_mod::lemma_small_mod((n - 1) as nat, n as nat);
    } else {
        vstd::arithmetic::div_mod::lemma_small_mod((sel + 1) as nat, n as nat);
        vstd::arithmetic::div_mod::lemma_mod_add_multiples_vanish(sel, n);
        vstd::arithmetic::div_mod::lemma_small_mod(sel as nat, n as nat);
    }
}

/// After a scan the selection points into the new list (or is 0 when it is empty).
pub proof fn law_scan_keeps_selection_in_list(sel: int, n: int)
    requires
        sel >= 0,
        n >= 0,
    ensures
        n > 0 ==> 0 <= clamp_selection(sel, n) < n,
        n == 0 ==> clamp_selection(sel, n) == 0,
        sel < n ==> clamp_selection(sel, n) == sel,
{
}


/// One step of the selection: up goes to the previous device and from the
/// first to the last; down goes to the next and from the last to the first;
/// with no device nothing moves.
pub proof fn law_selection_steps(sel: int, n: int)
    requires
        0 <= sel < n,
    ensures
        sel > 0 ==> select_up(sel, n) == sel - 1,
        sel == 0 ==> select_up(sel, n) == n - 1,
        sel < n - 1 ==> select_down(sel, n) == sel + 1,
        sel == n - 1 ==> select_down(sel, n) == 0,
        select_up(sel, 0) == sel && select_down(sel, 0) == sel,
{
    if sel > 0 {
        vstd::arithmetic::div_mod::lemma_mod_add_multiples_vanish(sel - 1, n);
        vstd::arithmetic::div_mod::lemma_small_mod((sel - 1) as nat, n as nat);
    } else {
        vstd::arithmetic::div_mod::lemma_small_mod((n - 1) as nat, n as nat);
    }
    if sel < n - 1 {
        vstd::arithmetic::div_mod::lemma_small_mod((sel + 1) as nat, n as nat);
    } else {
        vstd::arithmetic::div_mod::lemma_mod_self_0(n);
    }
}

/// The keys of the device screen (no modal open): q, Esc and Ctrl+C quit;
/// ? opens the help; U opens the update dialog and starts the update; c
/// copies the log; ↑ / k and ↓ / j move the selection one up or down; r
/// starts a scan unless one runs. The help closes on any key and does
/// nothing else.
pub proof fn law_keys(s: AppState, k: Key, ctrl: bool, installed: bool, after: AppState, act: KeyAction)
    requires
        key_outcome(s, k, ctrl, installed, after, act),
    ensures
        s.modal is Closed ==> {
            let n = count_word(s.receivers@) as int;
            &&& (k == Key::Char('q') || k == Key::Esc || (k == Key::Char('c') && ctrl)) ==> after.quit
                && act == KeyAction::Nothing
            &&& k == Key::Char('?') ==> after.modal is Help && after.quit == s.quit
            &&& k == Key::Char('U') ==> act == KeyAction::StartUpdate && after.modal is Update
            &&& (k == Key::Char('c') && !ctrl) ==> act == KeyAction::CopyLog && after.sel == s.sel
            &&& (k == Key::Up || k == Key::Char('k')) ==> after.sel == select_up(s.sel as int, n)
            &&& (k == Key::Down || k == Key::Char('j')) ==> after.sel == select_down(s.sel as int, n)
            &&& k == Key::Char('r') ==> after.scanning && act == KeyAction::Rescan { started: !s.scanning }
            &&& !(k == Key::Char('q') || k == Key::Esc || (k == Key::Char('c') && ctrl)) ==> after.quit == s.quit
        },
        s.modal is Help ==> after.modal is Closed && act == KeyAction::Nothing && after.quit == s.quit
            && after.sel == s.sel,
        s.modal is Update ==> act != KeyAction::StartUpdate && act != KeyAction::CopyLog && after.sel == s.sel,
{
}

} // verus!
