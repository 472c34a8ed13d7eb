//! The tray's menu: the receivers in it, and which of them is mirrored to.
pub mod laws;

use crate::config::{address, address_of};
use crate::discovery::{AirPlayDevice, AirPlayDeviceView, FEATURE_SCREEN};
use crate::sorted::{before, comes_before};
use crate::text::{
    chars, find_last_char, from_chars, last_index_of, lowercase_of, parse_unsigned, push_decimal,
    decimal_of, to_lowercase, trim, trimmed, unsigned_of,
};
use vstd::prelude::*;
use vstd::slice::slice_subrange;

verus! {

/// The port of a receiver that is named without one.
pub const DEFAULT_RTSP_PORT: u16 = 7000;

/// The most that the picture is shrunk by, in percent.
pub const MAX_PCT: u8 = 15;

/// How often a mirror that was chosen looks whether the one before it has ended.
pub const RELEASE_LOOKS: u32 = 400;

/// The milliseconds between two of these looks.
pub const RELEASE_PAUSE_MS: u64 = 25;

/// A percentage within its limits.
pub open spec fn clamped_pct(pct: int) -> int {
    if pct < 0 {
        0
    } else if pct > MAX_PCT {
        MAX_PCT as int
    } else {
        pct
    }
}

/// A percentage within its limits.
pub fn clamp_pct(pct: i32) -> (r: u8)
    ensures
        r == clamped_pct(pct as int),
{
    if pct < 0 {
        0
    } else if pct > 15 {
        MAX_PCT
    } else {
        pct as u8
    }
}

/// The percentage that a file holds; 0 when it holds none.
pub open spec fn saved_pct(text: Seq<char>) -> int {
    match unsigned_of(trimmed(text), 255) {
        Some(n) => clamped_pct(n as int),
        None => 0,
    }
}

/// The percentage that a file holds.
pub fn load_underscan(text: &str) -> (r: u8)
    ensures
        r == saved_pct(text@),
{
    let all: Vec<char> = chars(text);
    let kept: Vec<char> = trim(all.as_slice());
    match parse_unsigned(kept.as_slice(), 255) {
        Some(n) => clamp_pct(n as i32),
        None => 0,
    }
}

/// The host and the port in an address: what stands before and behind its last colon. A port that
/// is none, or is missing, is the default one.
pub open spec fn target_of(addr: Seq<char>) -> (Seq<char>, u16) {
    match last_index_of(addr, ':', addr.len() as int) {
        Some(i) => (
            addr.take(i),
            match unsigned_of(addr.skip(i + 1), 0xffff) {
                Some(p) => p as u16,
                None => DEFAULT_RTSP_PORT,
            },
        ),
        None => (addr, DEFAULT_RTSP_PORT),
    }
}

/// The host and the port in an address.
pub fn split_target(addr: &str) -> (r: (String, u16))
    ensures
        (r.0@, r.1) == target_of(addr@),
{
    let all: Vec<char> = chars(addr);
    match find_last_char(all.as_slice(), ':') {
        Some(i) => {
            let n: usize = all.len();
            let host: &[char] = slice_subrange(all.as_slice(), 0, i);
            let port: &[char] = slice_subrange(all.as_slice(), i + 1, n);
            assert(host@ =~= addr@.take(i as int));
            assert(port@ =~= addr@.skip(i + 1));
            (
                from_chars(host),
                match parse_unsigned(port, 0xffff) {
                    Some(p) => p as u16,
                    None => DEFAULT_RTSP_PORT,
                },
            )
        },
        None => (addr.to_owned(), DEFAULT_RTSP_PORT),
    }
}

/// A receiver in the menu.
#[derive(Clone, Debug)]
pub struct MenuRow {
    /// What it is sorted by.
    pub order: String,
    pub name: String,
    pub addr: String,
}

#[verifier::ext_equal]
pub struct MenuRowView {
    pub order: Seq<char>,
    pub name: Seq<char>,
    pub addr: Seq<char>,
}

impl View for MenuRow {
    type V = MenuRowView;

    open spec fn view(&self) -> MenuRowView {
        MenuRowView { order: self.order@, name: self.name@, addr: self.addr@ }
    }
}

/// The name of a receiver in the menu: its own, or its address where it has none.
pub open spec fn menu_name(d: AirPlayDeviceView) -> Seq<char> {
    if d.name.len() == 0 {
        d.ip
    } else {
        d.name
    }
}

/// The rows for the receivers that take a screen.
pub open spec fn menu_rows(found: Seq<AirPlayDeviceView>) -> Seq<MenuRowView>
    decreases found.len(),
{
    if found.len() == 0 {
        Seq::empty()
    } else {
        let rest = menu_rows(found.drop_last());
        let d = found.last();
        if d.features & FEATURE_SCREEN != 0 {
            rest.push(
                MenuRowView {
                    order: lowercase_of(menu_name(d)),
                    name: menu_name(d),
                    addr: address_of(d.ip, d.port),
                },
            )
        } else {
            rest
        }
    }
}

/// How many of the rows, from the front, do not come behind a key.
pub open spec fn rank(rows: Seq<MenuRowView>, key: Seq<char>, i: int) -> int
    decreases rows.len() - i,
{
    if i >= rows.len() || before(key, rows[i].order) {
        i
    } else {
        rank(rows, key, i + 1)
    }
}

/// The rows in their order; rows that are sorted by the same stay in the order in which they came.
pub open spec fn sorted_rows(rows: Seq<MenuRowView>) -> Seq<MenuRowView>
    decreases rows.len(),
{
    if rows.len() == 0 {
        rows
    } else {
        let rest = sorted_rows(rows.drop_last());
        rest.insert(rank(rest, rows.last().order, 0), rows.last())
    }
}

proof fn lemma_rank(rows: Seq<MenuRowView>, key: Seq<char>, i: int)
    requires
        0 <= i <= rows.len(),
    ensures
        i <= rank(rows, key, i) <= rows.len(),
        rank(rows, key, i) < rows.len() ==> before(key, rows[rank(rows, key, i)].order),
        forall|k: int| i <= k < rank(rows, key, i) ==> !before(key, (#[trigger] rows[k]).order),
    decreases rows.len() - i,
{
    if i < rows.len() && !before(key, rows[i].order) {
        lemma_rank(rows, key, i + 1);
    }
}

/// The rows of the menu.
pub open spec fn views(rows: Seq<MenuRow>) -> Seq<MenuRowView> {
    rows.map_values(|r: MenuRow| r@)
}

fn insert_row(rows: &mut Vec<MenuRow>, row: MenuRow)
    ensures
        views(final(rows)@) == views(old(rows)@).insert(
            rank(views(old(rows)@), row@.order, 0),
            row@,
        ),
{
    let ghost all = views(rows@);
    let mut i: usize = 0;
    while i < rows.len() && !comes_before(row.order.as_str(), rows[i].order.as_str())
        invariant
            i <= rows@.len(),
            all == views(rows@),
            rank(all, row@.order, 0) == rank(all, row@.order, i as int),
        decreases rows.len() - i,
    {
        assert(all[i as int] == rows@[i as int]@);
        i += 1;
    }
    proof {
        if i < rows@.len() {
            assert(all[i as int] == rows@[i as int]@);
        }
    }
    let ghost added = row@;
    rows.insert(i, row);
    assert(views(rows@) =~= all.insert(i as int, added));
}

/// Puts the rows in their order.
pub fn sort_rows(rows: Vec<MenuRow>) -> (r: Vec<MenuRow>)
    ensures
        views(r@) == sorted_rows(views(rows@)),
{
    let ghost all = views(rows@);
    let mut out: Vec<MenuRow> = Vec::new();
    let mut i: usize = 0;
    assert(all.take(0) =~= Seq::empty());
    assert(views(out@) =~= Seq::empty());
    while i < rows.len()
        invariant
            i <= rows@.len(),
            all == views(rows@),
            views(out@) == sorted_rows(all.take(i as int)),
        decreases rows.len() - i,
    {
        let row = MenuRow {
            order: rows[i].order.clone(),
            name: rows[i].name.clone(),
            addr: rows[i].addr.clone(),
        };
        proof {
            let next = all.take(i + 1);
            assert(next.drop_last() =~= all.take(i as int));
            assert(next.last() == all[i as int]);
            assert(all[i as int] == rows@[i as int]@);
            assert(row@ =~= rows@[i as int]@);
        }
        insert_row(&mut out, row);
        i += 1;
    }
    assert(all.take(i as int) =~= all);
    out
}

fn list_rows(found: &[AirPlayDevice]) -> (r: Vec<MenuRow>)
    ensures
        views(r@) == menu_rows(found@.map_values(|d: AirPlayDevice| d@)),
{
    let ghost all = found@.map_values(|d: AirPlayDevice| d@);
    let mut out: Vec<MenuRow> = Vec::new();
    let mut i: usize = 0;
    assert(all.take(0) =~= Seq::empty());
    assert(views(out@) =~= Seq::empty());
    while i < found.len()
        invariant
            i <= found@.len(),
            all == found@.map_values(|d: AirPlayDevice| d@),
            views(out@) == menu_rows(all.take(i as int)),
        decreases found.len() - i,
    {
        let d: &AirPlayDevice = &found[i];
        let ghost before_rows = views(out@);
        proof {
            let next = all.take(i + 1);
            assert(next.drop_last() =~= all.take(i as int));
            assert(next.last() == d@);
        }
        if d.supports_screen() {
            let name: String = if d.name.as_str().is_empty() {
                d.ip.clone()
            } else {
                d.name.clone()
            };
            let row = MenuRow {
                order: to_lowercase(name.as_str()),
                name,
                addr: address(d.ip.as_str(), d.port),
            };
            let ghost added = row@;
            out.push(row);
            assert(views(out@) =~= before_rows.push(added));
        }
        i += 1;
    }
    assert(all.take(i as int) =~= all);
    out
}

/// The receivers of a scan, as the menu shows them.
pub fn menu_of(found: &[AirPlayDevice]) -> (r: Vec<MenuRow>)
    ensures
        views(r@) == sorted_rows(menu_rows(found@.map_values(|d: AirPlayDevice| d@))),
{
    sort_rows(list_rows(found))
}

/// The menu is in order, and holds what it was made of.
pub proof fn lemma_menu_sorted(rows: Seq<MenuRowView>)
    ensures
        forall|i: int, j: int|
            0 <= i < j < sorted_rows(rows).len() ==> !before(
                (#[trigger] sorted_rows(rows)[j]).order,
                (#[trigger] sorted_rows(rows)[i]).order,
            ),
        sorted_rows(rows).to_multiset() == rows.to_multiset(),
    decreases rows.len(),
{
    broadcast use vstd::seq_lib::group_to_multiset_ensures;

    if rows.len() > 0 {
        let most = rows.drop_last();
        let rest = sorted_rows(most);
        let row = rows.last();
        let p = rank(rest, row.order, 0);
        lemma_menu_sorted(most);
        lemma_rank(rest, row.order, 0);
        let out = sorted_rows(rows);
        assert(out == rest.insert(p, row));
        assert forall|i: int, j: int| 0 <= i < j < out.len() implies !before(
            (#[trigger] out[j]).order,
            (#[trigger] out[i]).order,
        ) by {
            let a = if i > p {
                i - 1
            } else {
                i
            };
            let b = if j > p {
                j - 1
            } else {
                j
            };
            if i != p && j != p {
                assert(!before(rest[b].order, rest[a].order));
            } else if i == p {
                crate::sorted::lemma_order(rest[b].order, row.order, rest[p].order);
                crate::sorted::lemma_order(row.order, rest[p].order, rest[b].order);
                crate::sorted::lemma_order(rest[b].order, row.order, row.order);
                if b > p {
                    assert(!before(rest[b].order, rest[p].order));
                    crate::sorted::lemma_order(rest[p].order, rest[b].order, rest[p].order);
                    if before(rest[b].order, row.order) {
                        crate::sorted::lemma_order(rest[b].order, row.order, rest[p].order);
                    }
                }
            } else {
                assert(!before(row.order, rest[a].order));
            }
        }
        assert(rows =~= most.push(row));
        rest.to_multiset_ensures();
        vstd::seq_lib::to_multiset_insert(rest, p, row);
        vstd::seq_lib::to_multiset_build(most, row);
    }
}

/// What the tray knows.
#[derive(Clone, Copy, Debug, PartialEq, Eq, Structural)]
pub struct TrayState {
    /// By how much the picture is shrunk, in percent.
    pub underscan: u8,
    /// Whether a scan is under way.
    pub scanning: bool,
    /// The number of the latest choice of a receiver.
    pub generation: u64,
    /// Whether a mirror is running.
    pub active: bool,
}

impl TrayState {
    pub fn new(underscan: u8) -> (r: TrayState)
        ensures
            r == (TrayState { underscan, scanning: false, generation: 0, active: false }),
    {
        TrayState { underscan, scanning: false, generation: 0, active: false }
    }

    /// Begins a scan; false when one is under way already.
    pub fn begin_scan(&mut self) -> (r: bool)
        ensures
            r == !old(self).scanning,
            *final(self) == (TrayState { scanning: true, ..*old(self) }),
    {
        let first: bool = !self.scanning;
        self.scanning = true;
        first
    }

    /// Ends a scan. The result is the line to show, none while a mirror is running.
    pub fn end_scan(&mut self, found: usize) -> (r: Option<String>)
        ensures
            *final(self) == (TrayState { scanning: false, ..*old(self) }),
            match r {
                None => old(self).active,
                Some(line) => !old(self).active && line@ == (if found == 0 {
                    "No receivers found"@
                } else {
                    decimal_of(found as nat) + " receiver(s)"@
                }),
            },
    {
        self.scanning = false;
        if self.active {
            return None;
        }
        if found == 0 {
            return Some("No receivers found".to_owned());
        }
        let mut line = String::new();
        push_decimal(&mut line, found as u64);
        line.push_str(" receiver(s)");
        assert(line@ =~= decimal_of(found as nat) + " receiver(s)"@);
        Some(line)
    }

    /// A receiver was chosen, or the tray is to quit: every earlier choice is out of date.
    pub fn choose_next(&mut self) -> (r: u64)
        ensures
            r == old(self).generation.wrapping_add(1),
            *final(self) == (TrayState { generation: r, ..*old(self) }),
    {
        self.generation = self.generation.wrapping_add(1);
        self.generation
    }

    /// Whether a choice is still the latest.
    pub fn is_current(&self, generation: u64) -> (r: bool)
        ensures
            r == (self.generation == generation),
    {
        self.generation == generation
    }

    /// Starts the mirror of a choice; false when it is out of date.
    pub fn begin_mirror(&mut self, generation: u64) -> (r: bool)
        ensures
            r == (old(self).generation == generation),
            *final(self) == (TrayState { active: old(self).active || r, ..*old(self) }),
    {
        if self.generation != generation {
            return false;
        }
        self.active = true;
        true
    }

    /// Whether a mirror that was chosen waits on, having looked `looks` times: while the one before it
    /// runs, but not for ever.
    pub fn waits(&self, looks: u32) -> (r: bool)
        ensures
            r == (self.active && looks < RELEASE_LOOKS),
    {
        self.active && looks < RELEASE_LOOKS
    }

    /// The mirror ended.
    pub fn end_mirror(&mut self)
        ensures
            *final(self) == (TrayState { active: false, ..*old(self) }),
    {
        self.active = false;
    }

    /// The percentage was changed.
    pub fn set_underscan(&mut self, pct: i32)
        ensures
            final(self).underscan == clamped_pct(pct as int),
            *final(self) == (TrayState { underscan: final(self).underscan, ..*old(self) }),
    {
        self.underscan = clamp_pct(pct);
    }
}

} // verus!
