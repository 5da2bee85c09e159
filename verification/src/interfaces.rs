//! Grouping the HID interfaces the system lists into receivers and directly
//! attached devices.
//!
//! On Windows each vendor collection of one receiver is a separate interface
//! whose path differs only after `&Col`; the collections are grouped by the
//! part before it. Usage 1 carries short reports, the others long ones;
//! Bluetooth devices (vendor page 0xFF43) carry long reports only.

use vstd::prelude::*;
use crate::device::{receiver_family, receiver_kind, Receiver, Transport};
use crate::report::{Collection, LOGITECH};
use crate::text::{str_chars, string_from_chars};

verus! {

/// How a listed interface is attached, `None` for anything that is not a
/// Logitech HID++ collection: vendor page 0xFF00 of a receiver pid is a
/// receiver, of any other pid a USB device; page 0xFF43 is Bluetooth.
pub open spec fn transport_of(vendor: u16, usage_page: u16, pid: u16) -> Option<Transport> {
    if vendor != LOGITECH {
        None
    } else if usage_page == 0xff00 {
        if receiver_family(pid) is Some { Some(Transport::Receiver) } else { Some(Transport::Usb) }
    } else if usage_page == 0xff43 {
        Some(Transport::Bluetooth)
    } else {
        None
    }
}

pub fn interface_transport(vendor: u16, usage_page: u16, pid: u16) -> (t: Option<Transport>)
    ensures
        t == transport_of(vendor, usage_page, pid),
{
    if vendor != LOGITECH {
        return None;
    }
    if usage_page == 0xff00 {
        if receiver_kind(pid).is_some() {
            Some(Transport::Receiver)
        } else {
            Some(Transport::Usb)
        }
    } else if usage_page == 0xff43 {
        Some(Transport::Bluetooth)
    } else {
        None
    }
}

/// The collection an interface is: Bluetooth and usages other than 1 are long.
pub open spec fn collection_of(t: Transport, usage: u16) -> Collection {
    if t == Transport::Bluetooth {
        Collection::Long
    } else if usage == 1 {
        Collection::Short
    } else {
        Collection::Long
    }
}

pub fn interface_collection(t: Transport, usage: u16) -> (c: Collection)
    ensures
        c == collection_of(t, usage),
{
    match t {
        Transport::Bluetooth => Collection::Long,
        _ => if usage == 1 {
            Collection::Short
        } else {
            Collection::Long
        },
    }
}

pub open spec fn col_marker() -> Seq<char> {
    seq!['&', 'C', 'o', 'l']
}

/// `s` holds `&Col` at `i`.
pub open spec fn marker_at(s: Seq<char>, i: int) -> bool {
    0 <= i && i + 4 <= s.len() && s.subrange(i, i + 4) == col_marker()
}

/// The first position at or after `i` that holds `&Col`, the length when none.
pub open spec fn first_marker(s: Seq<char>, i: int) -> int
    decreases s.len() - i,
{
    if i < 0 || i >= s.len() {
        s.len() as int
    } else if marker_at(s, i) {
        i
    } else {
        first_marker(s, i + 1)
    }
}

/// `char::to_ascii_lowercase`.
pub open spec fn ascii_lower(c: char) -> char {
    if 'A' <= c && c <= 'Z' { ((c as u32) + 32) as char } else { c }
}

/// The interface path up to its first `&Col`, in ASCII lower case.
pub open spec fn path_base(path: Seq<char>) -> Seq<char> {
    path.take(first_marker(path, 0)).map_values(|c: char| ascii_lower(c))
}

fn lower(c: char) -> (l: char)
    ensures
        l == ascii_lower(c),
{
    if 'A' <= c && c <= 'Z' {
        ((c as u8) + 32) as char
    } else {
        c
    }
}

proof fn lemma_first_marker_range(s: Seq<char>, i: int)
    requires
        0 <= i <= s.len(),
    ensures
        i <= first_marker(s, i) <= s.len(),
    decreases s.len() - i,
{
    if i < s.len() && !marker_at(s, i) {
        lemma_first_marker_range(s, i + 1);
    }
}

fn marker_index(cs: &Vec<char>) -> (i: usize)
    ensures
        i == first_marker(cs@, 0),
{
    let n = cs.len();
    let mut i: usize = 0;
    while i < n
        invariant
            n == cs@.len(),
            i <= n,
            first_marker(cs@, 0) == first_marker(cs@, i as int),
        decreases n - i,
    {
        if n - i >= 4 && cs[i] == '&' && cs[i + 1] == 'C' && cs[i + 2] == 'o' && cs[i + 3] == 'l' {
            assert(cs@.subrange(i as int, i + 4) =~= col_marker());
            return i;
        }
        assert(!marker_at(cs@, i as int)) by {
            if marker_at(cs@, i as int) {
                assert(cs@.subrange(i as int, i + 4)[0] == cs@[i as int]);
                assert(cs@.subrange(i as int, i + 4)[1] == cs@[i + 1]);
                assert(cs@.subrange(i as int, i + 4)[2] == cs@[i + 2]);
                assert(cs@.subrange(i as int, i + 4)[3] == cs@[i + 3]);
            }
        }
        i = i + 1;
    }
    i
}

/// The part of an interface path that all collections of one device share.
pub fn interface_base(path: &str) -> (base: String)
    ensures
        base@ == path_base(path@),
{
    let cs = str_chars(path);
    let n = cs.len();
    let i = marker_index(&cs);
    proof {
        lemma_first_marker_range(cs@, 0);
    }
    let mut out: Vec<char> = Vec::new();
    let mut j: usize = 0;
    while j < i
        invariant
            j <= i <= n,
            n == cs@.len(),
            out@ == cs@.take(j as int).map_values(|c: char| ascii_lower(c)),
        decreases i - j,
    {
        out.push(lower(cs[j]));
        assert(cs@.take(j + 1).map_values(|c: char| ascii_lower(c)) =~= cs@.take(j as int).map_values(
            |c: char| ascii_lower(c),
        ).push(ascii_lower(cs@[j as int])));
        j = j + 1;
    }
    string_from_chars(&out)
}

/// The collections of one receiver or device found so far; `short` and
/// `long` index the handles opened for them.
#[derive(Debug, Clone)]
pub struct Group {
    pub base: String,
    pub pid: u16,
    pub product: String,
    pub transport: Transport,
    pub short: Option<usize>,
    pub long: Option<usize>,
}

pub struct GroupView {
    pub base: Seq<char>,
    pub pid: u16,
    pub product: Seq<char>,
    pub transport: Transport,
    pub short: Option<usize>,
    pub long: Option<usize>,
}

impl View for Group {
    type V = GroupView;

    open spec fn view(&self) -> GroupView {
        GroupView {
            base: self.base@,
            pid: self.pid,
            product: self.product@,
            transport: self.transport,
            short: self.short,
            long: self.long,
        }
    }
}

pub open spec fn groups_view(gs: Seq<Group>) -> Seq<GroupView> {
    gs.map_values(|g: Group| g@)
}

/// The first group with this base at or after `i`, -1 when none.
pub open spec fn group_with(gs: Seq<GroupView>, base: Seq<char>, i: int) -> int
    decreases gs.len() - i,
{
    if i < 0 || i >= gs.len() {
        -1
    } else if gs[i].base == base {
        i
    } else {
        group_with(gs, base, i + 1)
    }
}

/// A group with the handle placed in the slot of its collection.
pub open spec fn with_handle(g: GroupView, c: Collection, handle: usize) -> GroupView {
    match c {
        Collection::Short => GroupView { short: Some(handle), ..g },
        Collection::Long => GroupView { long: Some(handle), ..g },
    }
}

/// The groups after an opened interface joins them: into the first group
/// with its base, else into a new group at the end that takes the
/// interface's pid, product and transport.
pub open spec fn joined(
    gs: Seq<GroupView>,
    base: Seq<char>,
    pid: u16,
    product: Seq<char>,
    t: Transport,
    usage: u16,
    handle: usize,
) -> Seq<GroupView> {
    let i = group_with(gs, base, 0);
    let c = collection_of(t, usage);
    if i >= 0 {
        gs.update(i, with_handle(gs[i], c, handle))
    } else {
        gs.push(with_handle(GroupView { base, pid, product, transport: t, short: None, long: None }, c, handle))
    }
}

proof fn lemma_group_with_range(gs: Seq<GroupView>, base: Seq<char>, i: int)
    requires
        0 <= i,
    ensures
        group_with(gs, base, i) == -1 || (i <= group_with(gs, base, i) < gs.len() && gs[group_with(gs, base, i)].base == base),
    decreases gs.len() - i,
{
    if i < gs.len() && gs[i].base != base {
        lemma_group_with_range(gs, base, i + 1);
    }
}

fn group_index(groups: &Vec<Group>, base: &String) -> (i: usize)
    ensures
        i < groups@.len() ==> i == group_with(groups_view(groups@), base@, 0),
        i >= groups@.len() ==> i == groups@.len() && group_with(groups_view(groups@), base@, 0) == -1,
{
    let ghost gv = groups_view(groups@);
    let n = groups.len();
    let mut i: usize = 0;
    while i < n
        invariant
            n == groups@.len(),
            i <= n,
            gv == groups_view(groups@),
            group_with(gv, base@, 0) == group_with(gv, base@, i as int),
        decreases n - i,
    {
        if groups[i].base == *base {
            assert(gv[i as int].base == base@);
            return i;
        }
        i = i + 1;
    }
    i
}

/// Add an opened interface (its handle index) to the groups.
pub fn join_group(
    groups: &mut Vec<Group>,
    base: String,
    pid: u16,
    product: String,
    t: Transport,
    usage: u16,
    handle: usize,
)
    ensures
        groups_view(final(groups)@) == joined(groups_view(old(groups)@), base@, pid, product@, t, usage, handle),
{
    let ghost gv = groups_view(groups@);
    let c = interface_collection(t, usage);
    let n = groups.len();
    let i = group_index(groups, &base);
    proof {
        lemma_group_with_range(gv, base@, 0);
    }
    if i < n {
        let mut g = groups[i].clone_group();
        match c {
            Collection::Short => g.short = Some(handle),
            Collection::Long => g.long = Some(handle),
        }
        groups.set(i, g);
        assert(groups_view(groups@) =~= gv.update(i as int, with_handle(gv[i as int], c, handle)));
    } else {
        let mut g = Group { base, pid, product, transport: t, short: None, long: None };
        match c {
            Collection::Short => g.short = Some(handle),
            Collection::Long => g.long = Some(handle),
        }
        groups.push(g);
        assert(groups_view(groups@) =~= gv.push(g@));
    }
}

impl Group {
    pub fn clone_group(&self) -> (g: Group)
        ensures
            g@ == self@,
    {
        Group {
            base: self.base.clone(),
            pid: self.pid,
            product: self.product.clone(),
            transport: self.transport,
            short: self.short,
            long: self.long,
        }
    }

    /// The receiver entry this group makes.
    pub fn receiver(&self) -> (r: Receiver)
        ensures
            r.pid == self.pid,
            r.product@ == self.product@,
            r.transport == self.transport,
    {
        Receiver { pid: self.pid, product: self.product.clone(), transport: self.transport }
    }
}


/// No two groups share a base.
pub open spec fn distinct_bases(gs: Seq<GroupView>) -> bool {
    forall|i: int, j: int| 0 <= i < j < gs.len() ==> gs[i].base != gs[j].base
}

proof fn lemma_group_with_absent(gs: Seq<GroupView>, base: Seq<char>, i: int)
    requires
        0 <= i,
        group_with(gs, base, i) == -1,
    ensures
        forall|j: int| i <= j < gs.len() ==> gs[j].base != base,
    decreases gs.len() - i,
{
    if i < gs.len() {
        lemma_group_with_absent(gs, base, i + 1);
    }
}

/// All collections of one device end up in one group: joining an interface
/// keeps the groups' bases distinct, and the group with its base holds its handle.
pub proof fn law_join_groups_by_base(
    gs: Seq<GroupView>,
    base: Seq<char>,
    pid: u16,
    product: Seq<char>,
    t: Transport,
    usage: u16,
    handle: usize,
)
    requires
        distinct_bases(gs),
    ensures
        distinct_bases(joined(gs, base, pid, product, t, usage, handle)),
        ({
            let after = joined(gs, base, pid, product, t, usage, handle);
            exists|k: int| 0 <= k < after.len() && after[k].base == base && match collection_of(t, usage) {
                Collection::Short => after[k].short == Some(handle),
                Collection::Long => after[k].long == Some(handle),
            }
        }),
{
    lemma_group_with_range(gs, base, 0);
    let i = group_with(gs, base, 0);
    let after = joined(gs, base, pid, product, t, usage, handle);
    if i >= 0 {
        assert(after[i].base == base);
        assert forall|a: int, b: int| 0 <= a < b < after.len() implies after[a].base != after[b].base by {
            assert(after[a].base == gs[a].base);
            assert(after[b].base == gs[b].base);
        }
    } else {
        lemma_group_with_absent(gs, base, 0);
        let k = gs.len() as int;
        assert(after[k].base == base);
        assert forall|a: int, b: int| 0 <= a < b < after.len() implies after[a].base != after[b].base by {
            if b < gs.len() {
                assert(after[a] == gs[a]);
                assert(after[b] == gs[b]);
            } else {
                assert(after[a] == gs[a]);
            }
        }
    }
}


/// The recognised receivers: each listed pid names its family and its
/// vendor collection (page 0xFF00) is a receiver; every other pid on that
/// page is a directly attached USB device.
pub proof fn law_receiver_pids(pid: u16)
    ensures
        (pid == 0xc52b || pid == 0xc532 || pid == 0xc517 || pid == 0xc51b || pid == 0xc526
            || pid == 0xc52e || pid == 0xc531 || pid == 0xc542) ==> receiver_family(pid) == Some(
            "Unifying receiver",
        ),
        (pid == 0xc52f || pid == 0xc534 || pid == 0xc53d) ==> receiver_family(pid) == Some("Nano receiver"),
        (pid == 0xc539 || pid == 0xc53a || pid == 0xc53f || pid == 0xc547 || pid == 0xc54d
            || pid == 0xc541 || pid == 0xc545) ==> receiver_family(pid) == Some("Lightspeed receiver"),
        pid == 0xc548 ==> receiver_family(pid) == Some("Bolt receiver"),
        !(pid == 0xc52b || pid == 0xc532 || pid == 0xc517 || pid == 0xc51b || pid == 0xc526
            || pid == 0xc52e || pid == 0xc531 || pid == 0xc542 || pid == 0xc52f || pid == 0xc534
            || pid == 0xc53d || pid == 0xc539 || pid == 0xc53a || pid == 0xc53f || pid == 0xc547
            || pid == 0xc54d || pid == 0xc541 || pid == 0xc545 || pid == 0xc548) ==> {
            &&& receiver_family(pid) is None
            &&& transport_of(0x046d, 0xff00, pid) == Some(Transport::Usb)
        },
        (pid == 0xc52b || pid == 0xc532 || pid == 0xc517 || pid == 0xc51b || pid == 0xc526
            || pid == 0xc52e || pid == 0xc531 || pid == 0xc542 || pid == 0xc52f || pid == 0xc534
            || pid == 0xc53d || pid == 0xc539 || pid == 0xc53a || pid == 0xc53f || pid == 0xc547
            || pid == 0xc54d || pid == 0xc541 || pid == 0xc545 || pid == 0xc548) ==> transport_of(
            0x046d,
            0xff00,
            pid,
        ) == Some(Transport::Receiver),
{
}


/// Which interfaces count and how: only Logitech's; vendor page 0xFF43 is a
/// Bluetooth device, whose collections are all long; on other pages nothing;
/// on 0xFF00 usage 1 is the short collection and every other usage the long one.
pub proof fn law_interface_kinds(vendor: u16, usage_page: u16, pid: u16, t: Transport, usage: u16)
    ensures
        vendor != 0x046d ==> transport_of(vendor, usage_page, pid) is None,
        vendor == 0x046d && usage_page == 0xff43 ==> transport_of(vendor, usage_page, pid) == Some(Transport::Bluetooth),
        usage_page != 0xff00 && usage_page != 0xff43 ==> transport_of(vendor, usage_page, pid) is None,
        vendor == 0x046d && usage_page == 0xff00 ==> transport_of(vendor, usage_page, pid) is Some
            && transport_of(vendor, usage_page, pid) != Some(Transport::Bluetooth),
        t == Transport::Bluetooth ==> collection_of(t, usage) == Collection::Long,
        t != Transport::Bluetooth && usage == 1 ==> collection_of(t, usage) == Collection::Short,
        usage != 1 ==> collection_of(t, usage) == Collection::Long,
{
}

proof fn lemma_first_marker(s: Seq<char>, i: int)
    requires
        0 <= i <= s.len(),
    ensures
        first_marker(s, i) == s.len() || marker_at(s, first_marker(s, i)),
        forall|j: int| i <= j < first_marker(s, i) ==> !marker_at(s, j),
    decreases s.len() - i,
{
    if i < s.len() && !marker_at(s, i) {
        lemma_first_marker(s, i + 1);
    }
}

/// The base of an interface path is the path up to the first `&Col` (all of
/// it when there is none), each ASCII capital turned small and every other
/// character kept.
pub proof fn law_path_base(path: Seq<char>)
    ensures
        ({
            let b = path_base(path);
            &&& b.len() <= path.len()
            &&& b.len() == path.len() || path.subrange(b.len() as int, b.len() as int + 4) == seq!['&', 'C', 'o', 'l']
            &&& forall|j: int| 0 <= j < b.len() ==> !(j + 4 <= path.len() && #[trigger] path.subrange(j, j + 4)
                == seq!['&', 'C', 'o', 'l'])
            &&& forall|j: int| 0 <= j < b.len() ==> ('A' <= path[j] <= 'Z' ==> b[j] as u32 == path[j] as u32 + 32)
                && (!('A' <= path[j] <= 'Z') ==> b[j] == path[j])
        }),
{
    lemma_first_marker(path, 0);
    lemma_first_marker_range(path, 0);
    let b = path_base(path);
    assert forall|j: int| 0 <= j < b.len() implies !(j + 4 <= path.len() && #[trigger] path.subrange(j, j + 4)
        == seq!['&', 'C', 'o', 'l']) by {
        assert(!marker_at(path, j));
    }
}

} // verus!
