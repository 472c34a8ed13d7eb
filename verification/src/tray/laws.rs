//! What the menu and the settings behind it come to.
use crate::config::{address_of, at_most_max, device_at, underscan_at, Config};
use crate::discovery::AirPlayDeviceView;
use crate::json::{member, JsonView};
use crate::paths::{config_dir_of, joined};
use crate::text::laws::{law_decimal, law_last_place};
use crate::text::{decimal_of, lowercase_of, trimmed};
use crate::tray::{clamped_pct, menu_name, menu_rows, saved_pct, target_of, MenuRowView};
use crate::underscan::{underscan_for, with_pct, within, UnderscanEntryView};
use vstd::prelude::*;

verus! {

/// An address that was made of a host and a port is taken apart into them; without a port, or with
/// one that is none, the port is 7000.
pub proof fn law_address(host: Seq<char>, port: u16)
    requires
        forall|i: int| 0 <= i < host.len() ==> #[trigger] host[i] != ':',
    ensures
        target_of(address_of(host, port)) == (host, port),
        target_of(host) == (host, 7000u16),
        target_of(host + seq![':']) == (host, 7000u16),
{
    let d = decimal_of(port as nat);
    let s = address_of(host, port);
    let n = host.len() as int;
    crate::text::lemma_decimal_value(port as nat);
    assert forall|j: int| n < j < s.len() implies s[j] != ':' by {
        assert(s[j] == d[j - n - 1]);
        assert(crate::text::is_digit(d[j - n - 1]));
    }
    law_last_place(s, ':', s.len() as int, n);
    assert(s.take(n) =~= host);
    assert(s.skip(n + 1) =~= d);
    law_decimal(port as nat, 0xffff);
    lemma_nowhere(host, n);
    let bare = host + seq![':'];
    law_last_place(bare, ':', bare.len() as int, n);
    assert(bare.take(n) =~= host);
    assert(bare.skip(n + 1) =~= Seq::<char>::empty());
}

proof fn lemma_nowhere(s: Seq<char>, n: int)
    requires
        0 <= n <= s.len(),
        forall|i: int| 0 <= i < s.len() ==> #[trigger] s[i] != ':',
    ensures
        crate::text::last_index_of(s, ':', n) is None,
    decreases n,
{
    if n > 0 {
        lemma_nowhere(s, n - 1);
    }
}

/// A percentage is between 0 and 15 wherever it is kept: one that is larger counts as 15, and one
/// that is missing or no number as 0.
pub proof fn law_percentages(pct: int, n: u8, kept: Option<u64>)
    ensures
        0 <= clamped_pct(pct) <= 15,
        0 <= pct <= 15 ==> clamped_pct(pct) == pct,
        pct > 15 ==> clamped_pct(pct) == 15,
        pct < 0 ==> clamped_pct(pct) == 0,
        n <= 15 ==> at_most_max(n) == n,
        n > 15 ==> at_most_max(n) == 15,
        kept is None ==> within(kept) == 0,
        kept matches Some(k) ==> within(kept) == (if k > 15 {
            15
        } else {
            k as int
        }),
        saved_pct(Seq::empty()) == 0,
{
}

/// A percentage that is written to its file is read back, whatever stands around it there.
pub proof fn law_saved_percentage(text: Seq<char>, n: nat)
    requires
        trimmed(text) == decimal_of(n),
        n <= 255,
    ensures
        saved_pct(text) == (if n > 15 {
            15
        } else {
            n as int
        }),
{
    law_decimal(n, 255);
}

/// The entry of a receiver comes before the one for all, and the first of two entries before the
/// second.
pub proof fn law_entry_of_receiver(
    entries: Seq<UnderscanEntryView>,
    top: Option<u64>,
    addr: Seq<char>,
    i: int,
)
    requires
        0 <= i < entries.len(),
        addr.len() > 0,
        entries[i].ip + seq![':'] + decimal_of(entries[i].port as nat) == addr,
        forall|k: int|
            0 <= k < i ==> (#[trigger] entries[k]).ip + seq![':'] + decimal_of(
                entries[k].port as nat,
            ) != addr,
    ensures
        underscan_for(entries, top, addr) == within(entries[i].pct),
        underscan_for(entries, top, Seq::empty()) == within(top),
{
    assert forall|k: int| 0 <= k <= i implies (#[trigger] entries[k]).ip.push(':') + decimal_of(
        entries[k].port as nat,
    ) == entries[k].ip + seq![':'] + decimal_of(entries[k].port as nat) by {
        assert(entries[k].ip.push(':') =~= entries[k].ip + seq![':']);
    }
    lemma_entry(entries, addr, 0, i);
}

proof fn lemma_entry(entries: Seq<UnderscanEntryView>, addr: Seq<char>, from: int, i: int)
    requires
        0 <= from <= i < entries.len(),
        entries[i].ip.push(':') + decimal_of(entries[i].port as nat) == addr,
        forall|k: int|
            0 <= k < i ==> (#[trigger] entries[k]).ip.push(':') + decimal_of(
                entries[k].port as nat,
            ) != addr,
    ensures
        crate::underscan::entry_of(entries, addr, from) == Some(i),
    decreases i - from,
{
    if from < i {
        lemma_entry(entries, addr, from + 1, i);
    }
}

/// A receiver that the settings list has its own percentage, and every other the one for all.
pub proof fn law_configured(c: Config, addr: Seq<char>)
    ensures
        device_at(c.devices@, addr, 0) is None ==> underscan_at(c, addr) == (if c.underscan > 15 {
            15u8
        } else {
            c.underscan
        }),
        device_at(c.devices@, addr, 0) matches Some(i) ==> underscan_at(c, addr) == (if c.devices@[i].underscan
            > 15 {
            15u8
        } else {
            c.devices@[i].underscan
        }),
{
}

/// The menu has a row for each receiver that takes a screen, in the order in which they were found,
/// under its name, or under its address where it has none.
pub proof fn law_menu(found: Seq<AirPlayDeviceView>, d: AirPlayDeviceView)
    ensures
        menu_rows(Seq::empty()).len() == 0,
        d.features & 0x100 == 0 ==> menu_rows(found.push(d)) == menu_rows(found),
        d.features & 0x100 != 0 ==> menu_rows(found.push(d)) == menu_rows(found).push(
            MenuRowView {
                order: lowercase_of(menu_name(d)),
                name: menu_name(d),
                addr: d.ip + seq![':'] + decimal_of(d.port as nat),
            },
        ),
        d.name.len() > 0 ==> menu_name(d) == d.name,
        d.name.len() == 0 ==> menu_name(d) == d.ip,
{
    assert(found.push(d).drop_last() =~= found);
    assert(d.ip.push(':') =~= d.ip + seq![':']);
}

/// A name below a directory stands behind one slash.
pub proof fn law_paths(dir: Seq<u8>, name: Seq<u8>)
    ensures
        dir.len() > 0 && dir.last() != 0x2f ==> joined(dir, name) == dir + seq![0x2fu8] + name,
        dir.len() > 0 && dir.last() == 0x2f ==> joined(dir, name) == dir + name,
        dir.len() == 0 ==> joined(dir, name) == name,
        config_dir_of(None, None) is None,
{
    assert(dir.push(0x2f) =~= dir + seq![0x2fu8]);
    if dir.len() == 0 {
        assert(dir + name =~= name);
    }
}

/// A percentage that is set in the settings of a receiver is found there again, and what else they
/// hold stays.
pub proof fn law_percentage_is_set(
    members: Map<Seq<char>, JsonView>,
    item: JsonView,
    pct: u8,
    other: Seq<char>,
)
    ensures
        with_pct(JsonView::Object(members), pct) matches Some(after) && member(
            after,
            "underscan_pct"@,
        ) == Some(JsonView::Unsigned(pct as u64)) && (other != "underscan_pct"@ ==> member(
            after,
            other,
        ) == member(JsonView::Object(members), other)),
        with_pct(JsonView::Null, pct) matches Some(after) && member(after, "underscan_pct"@)
            == Some(JsonView::Unsigned(pct as u64)),
        !(item is Object) && !(item is Null) ==> with_pct(item, pct) is None,
{
}

} // verus!
