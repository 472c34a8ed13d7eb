//! By how much the picture is shrunk, for each receiver in the settings.
use crate::json::{
    by_key, items_at, json_parsed, json_pretty, lemma_object, member, parse_json, pretty_json,
    put_member, reread, take_member, text_at, unsigned_at, Json, JsonView, Member, DEPTH_LIMIT,
};
use crate::text::{decimal_of, push_decimal, same};
use crate::tray::MAX_PCT;
use vstd::prelude::*;

verus! {

/// What the settings hold of a receiver.
pub struct UnderscanEntry {
    /// Its address; empty when none is stated.
    pub ip: String,
    /// Its port; 0 when none is stated.
    pub port: u64,
    pub pct: Option<u64>,
}

#[verifier::ext_equal]
pub struct UnderscanEntryView {
    pub ip: Seq<char>,
    pub port: u64,
    pub pct: Option<u64>,
}

impl View for UnderscanEntry {
    type V = UnderscanEntryView;

    open spec fn view(&self) -> UnderscanEntryView {
        UnderscanEntryView { ip: self.ip@, port: self.port, pct: self.pct }
    }
}

/// Whether an entry is that of the receiver at an address.
pub open spec fn is_entry_of(e: UnderscanEntryView, addr: Seq<char>) -> bool {
    e.ip.push(':') + decimal_of(e.port as nat) == addr
}

/// The first entry of a receiver, from number `i` on.
pub open spec fn entry_of(entries: Seq<UnderscanEntryView>, addr: Seq<char>, i: int) -> Option<int>
    decreases entries.len() - i,
{
    if i >= entries.len() {
        None
    } else if is_entry_of(entries[i], addr) {
        Some(i)
    } else {
        entry_of(entries, addr, i + 1)
    }
}

/// The entry that an address stands for; none when no address is given.
pub open spec fn chosen(entries: Seq<UnderscanEntryView>, addr: Seq<char>) -> Option<int> {
    if addr.len() == 0 {
        None
    } else {
        entry_of(entries, addr, 0)
    }
}

/// A percentage within its limit; 0 when none is stated.
pub open spec fn within(pct: Option<u64>) -> int {
    match pct {
        Some(n) => if n > MAX_PCT {
            MAX_PCT as int
        } else {
            n as int
        },
        None => 0,
    }
}

/// The percentage for a receiver: that of its entry, or else the one for all.
pub open spec fn underscan_for(
    entries: Seq<UnderscanEntryView>,
    top: Option<u64>,
    addr: Seq<char>,
) -> int {
    match chosen(entries, addr) {
        Some(i) => within(entries[i].pct),
        None => within(top),
    }
}

/// The entries as they are seen.
pub open spec fn entry_views(entries: Seq<UnderscanEntry>) -> Seq<UnderscanEntryView> {
    entries.map_values(|e: UnderscanEntry| e@)
}

/// Whether an entry is that of the receiver at an address.
pub fn device_matches(e: &UnderscanEntry, addr: &str) -> (r: bool)
    ensures
        r == is_entry_of(e@, addr@),
{
    let mut own: String = e.ip.clone();
    own.push(':');
    push_decimal(&mut own, e.port);
    same(own.as_str(), addr)
}

/// Where the percentage of a receiver is kept: in its entry, or for all.
pub fn save_place(entries: &[UnderscanEntry], addr: &str) -> (r: Option<usize>)
    ensures
        match chosen(entry_views(entries@), addr@) {
            Some(i) => r matches Some(k) && k == i && i < entries@.len(),
            None => r is None,
        },
{
    if addr.is_empty() {
        return None;
    }
    let ghost all = entry_views(entries@);
    let mut i: usize = 0;
    while i < entries.len()
        invariant
            i <= entries@.len(),
            all == entry_views(entries@),
            entry_of(all, addr@, 0) == entry_of(all, addr@, i as int),
        decreases entries.len() - i,
    {
        assert(all[i as int] == entries@[i as int]@);
        if device_matches(&entries[i], addr) {
            return Some(i);
        }
        i += 1;
    }
    None
}

fn limit(pct: Option<u64>) -> (r: u8)
    ensures
        r == within(pct),
{
    match pct {
        Some(n) => if n > MAX_PCT as u64 {
            MAX_PCT
        } else {
            n as u8
        },
        None => 0,
    }
}

/// The percentage for a receiver.
pub fn load_underscan(entries: &[UnderscanEntry], top: Option<u64>, addr: &str) -> (r: u8)
    ensures
        r == underscan_for(entry_views(entries@), top, addr@),
{
    match save_place(entries, addr) {
        Some(i) => {
            assert(entry_views(entries@)[i as int] == entries@[i as int]@);
            limit(entries[i].pct)
        },
        None => limit(top),
    }
}

proof fn lemma_same_entry(
    before: Seq<UnderscanEntryView>,
    after: Seq<UnderscanEntryView>,
    addr: Seq<char>,
    i: int,
)
    requires
        0 <= i,
        before.len() == after.len(),
        forall|k: int|
            0 <= k < before.len() ==> (#[trigger] before[k]).ip == after[k].ip && before[k].port
                == after[k].port,
    ensures
        entry_of(before, addr, i) == entry_of(after, addr, i),
        entry_of(before, addr, i) matches Some(k) ==> i <= k < before.len(),
    decreases before.len() - i,
{
    if i < before.len() {
        assert(before[i].ip == after[i].ip);
        lemma_same_entry(before, after, addr, i + 1);
    }
}

/// A percentage that is kept where it belongs is the one that is read back.
pub proof fn lemma_kept_is_read(
    entries: Seq<UnderscanEntryView>,
    top: Option<u64>,
    addr: Seq<char>,
    pct: u8,
)
    ensures
        match chosen(entries, addr) {
            Some(i) => underscan_for(
                entries.update(i, UnderscanEntryView { pct: Some(pct as u64), ..entries[i] }),
                top,
                addr,
            ),
            None => underscan_for(entries, Some(pct as u64), addr),
        } == within(Some(pct as u64)),
{
    if let Some(i) = chosen(entries, addr) {
        lemma_same_entry(entries, entries, addr, 0);
        let after = entries.update(i, UnderscanEntryView { pct: Some(pct as u64), ..entries[i] });
        lemma_same_entry(entries, after, addr, 0);
    }
}

/// What an item of the settings says of a receiver: its address and port, and its percentage.
pub open spec fn entry_in(item: JsonView) -> UnderscanEntryView {
    UnderscanEntryView {
        ip: match text_at(item, "ip"@) {
            Some(ip) => ip,
            None => Seq::empty(),
        },
        port: match unsigned_at(item, "port"@) {
            Some(port) => port,
            None => 0,
        },
        pct: unsigned_at(item, "underscan_pct"@),
    }
}

/// The receivers of the settings.
pub open spec fn entries_in(settings: JsonView) -> Seq<UnderscanEntryView> {
    match items_at(settings, "devices"@) {
        Some(items) => items.map_values(|item: JsonView| entry_in(item)),
        None => Seq::empty(),
    }
}

/// The percentage that the settings give for a receiver.
pub open spec fn underscan_of(settings: JsonView, addr: Seq<char>) -> int {
    underscan_for(entries_in(settings), unsigned_at(settings, "underscan_pct"@), addr)
}

/// The percentage for a receiver by the settings' text; 0 when that is no JSON.
pub open spec fn underscan_in(text: Seq<char>, addr: Seq<char>) -> int {
    match json_parsed(text) {
        Some(settings) => underscan_of(settings, addr),
        None => 0,
    }
}

/// The settings of a text: the object that it holds, or else an empty one.
pub open spec fn settings_of(text: Option<Seq<char>>) -> JsonView {
    match text {
        Some(t) => match json_parsed(t) {
            Some(JsonView::Object(members)) => JsonView::Object(members),
            _ => JsonView::Object(Map::empty()),
        },
        None => JsonView::Object(Map::empty()),
    }
}

/// An item with a percentage. Nothing counts as an empty object; any other value than an object
/// cannot hold one.
pub open spec fn with_pct(item: JsonView, pct: u8) -> Option<JsonView> {
    match item {
        JsonView::Null => Some(
            JsonView::Object(Map::empty().insert("underscan_pct"@, JsonView::Unsigned(pct as u64))),
        ),
        JsonView::Object(members) => Some(
            JsonView::Object(members.insert("underscan_pct"@, JsonView::Unsigned(pct as u64))),
        ),
        _ => None,
    }
}

/// The members of the settings with a percentage for a receiver: in its entry, or else for all.
/// `None` when the entry cannot hold one.
pub open spec fn kept(
    members: Map<Seq<char>, JsonView>,
    addr: Seq<char>,
    pct: u8,
) -> Option<JsonView> {
    let settings = JsonView::Object(members);
    match chosen(entries_in(settings), addr) {
        None => with_pct(settings, pct),
        Some(i) => {
            let items = items_at(settings, "devices"@)->Some_0;
            match with_pct(items[i], pct) {
                Some(item) => Some(
                    JsonView::Object(
                        members.insert("devices"@, JsonView::Array(items.update(i, item))),
                    ),
                ),
                None => None,
            }
        },
    }
}

fn read_entry(item: &Json) -> (r: UnderscanEntry)
    ensures
        r@ == entry_in(item@),
{
    let ip = match item.text_at("ip") {
        Some(ip) => ip.clone(),
        None => String::new(),
    };
    let port: u64 = match item.unsigned_at("port") {
        Some(port) => port,
        None => 0,
    };
    let r = UnderscanEntry { ip, port, pct: item.unsigned_at("underscan_pct") };
    assert(r@ =~= entry_in(item@));
    r
}

fn read_entries(settings: &Json) -> (r: Vec<UnderscanEntry>)
    ensures
        entry_views(r@) == entries_in(settings@),
{
    let mut out: Vec<UnderscanEntry> = Vec::new();
    match settings.items_at("devices") {
        Some(items) => {
            let ghost all = items_at(settings@, "devices"@)->Some_0;
            let mut i: usize = 0;
            while i < items.len()
                invariant
                    i <= items@.len(),
                    items@.len() == all.len(),
                    forall|k: int| 0 <= k < all.len() ==> #[trigger] items@[k]@ == all[k],
                    out@.len() == i,
                    forall|k: int| 0 <= k < i ==> (#[trigger] out@[k])@ == entry_in(all[k]),
                decreases items.len() - i,
            {
                out.push(read_entry(&items[i]));
                i += 1;
            }
            assert(entry_views(out@) =~= entries_in(settings@));
        },
        None => {
            assert(entry_views(out@) =~= entries_in(settings@));
        },
    }
    out
}

/// The percentage that the settings give for a receiver.
pub fn load_underscan_json(settings: &Json, addr: &str) -> (r: u8)
    ensures
        r == underscan_of(settings@, addr@),
{
    load_underscan(
        read_entries(settings).as_slice(),
        settings.unsigned_at("underscan_pct"),
        addr,
    )
}

/// The percentage for a receiver by the settings' text.
pub fn load_underscan_text(text: &str, addr: &str) -> (r: u8)
    ensures
        r == underscan_in(text@, addr@),
{
    match parse_json(text) {
        Some(settings) => load_underscan_json(&settings, addr),
        None => 0,
    }
}

fn set_pct(item: Json, pct: u8) -> (r: Option<Json>)
    requires
        item.wf(),
    ensures
        match with_pct(item@, pct) {
            Some(v) => r matches Some(j) && j.wf() && j@ == v,
            None => r is None,
        },
{
    proof {
        if item is Object {
            lemma_object(item);
        }
    }
    let mut members: Vec<Member> = match item {
        Json::Null => Vec::new(),
        Json::Object(members) => members,
        _ => {
            return None;
        },
    };
    let ghost before = by_key(members@);
    put_member(&mut members, "underscan_pct", Json::Unsigned(pct as u64));
    let r = Json::Object(members);
    proof {
        lemma_object(r);
        if item is Null {
            assert(before =~= Map::empty());
        }
    }
    Some(r)
}

/// The settings with a percentage for a receiver.
pub fn save_underscan_json(settings: Vec<Member>, addr: &str, pct: u8) -> (r: Option<Json>)
    requires
        Json::Object(settings).wf(),
    ensures
        match kept(by_key(settings@), addr@, pct) {
            Some(v) => r matches Some(j) && j.wf() && j@ == v,
            None => r is None,
        },
{
    let ghost all = by_key(settings@);
    let whole = Json::Object(settings);
    proof {
        lemma_object(whole);
    }
    let entries: Vec<UnderscanEntry> = read_entries(&whole);
    let place: usize = match save_place(entries.as_slice(), addr) {
        None => {
            return set_pct(whole, pct);
        },
        Some(place) => place,
    };
    let mut members: Vec<Member> = match whole {
        Json::Object(members) => members,
        _ => {
            return None;
        },
    };
    let ghost items_before = items_at(JsonView::Object(all), "devices"@)->Some_0;
    let mut items: Vec<Json> = match take_member(&mut members, "devices") {
        Some(Json::Array(items)) => items,
        _ => {
            return None;
        },
    };
    assert(items@.len() == items_before.len());
    assert forall|k: int| 0 <= k < items@.len() implies (#[trigger] items@[k])@
        == items_before[k] by {}
    let ghost given = items@;
    let mut item = Json::Null;
    std::mem::swap(&mut item, &mut items[place]);
    assert(item@ == items_before[place as int]);
    match set_pct(item, pct) {
        None => None,
        Some(changed) => {
            items[place] = changed;
            let devices = Json::Array(items);
            proof {
                assert(devices@->Array_0 =~= items_before.update(place as int, changed@));
                assert forall|k: int| 0 <= k < items@.len() implies (#[trigger] items@[k]).wf() by {
                    if k != place {
                        assert(given[k].wf());
                    }
                }
            }
            let ghost full = devices@;
            put_member(&mut members, "devices", devices);
            let r = Json::Object(members);
            proof {
                lemma_object(r);
                assert(by_key(members@) =~= all.insert("devices"@, full));
            }
            Some(r)
        },
    }
}

/// The settings' text with a percentage for a receiver, in its entry or else for all; everything
/// else stays. A text that holds no object counts as empty settings. `None` when the receiver's
/// entry is neither an object nor null, and so cannot hold a percentage.
pub fn save_underscan_text(text: Option<&str>, addr: &str, pct: u8) -> (r: Option<String>)
    ensures
        ({
            let settings = settings_of(
                match text {
                    Some(t) => Some(t@),
                    None => None,
                },
            );
            match kept(settings->Object_0, addr@, pct) {
                Some(after) => {
                    &&& r matches Some(s) && s@ == json_pretty(after)
                    &&& reread(settings, DEPTH_LIMIT as nat) ==> underscan_in(r->Some_0@, addr@)
                        == within(Some(pct as u64))
                },
                None => r is None,
            }
        }),
{
    let parsed = match text {
        Some(t) => parse_json(t),
        None => None,
    };
    let members: Vec<Member> = match parsed {
        Some(Json::Object(members)) => {
            proof {
                lemma_object(Json::Object(members));
            }
            members
        },
        _ => Vec::new(),
    };
    let ghost all = by_key(members@);
    let ghost settings = settings_of(
        match text {
            Some(t) => Some(t@),
            None => None,
        },
    );
    assert(settings->Object_0 =~= all);
    assert(settings == JsonView::Object(all));
    match save_underscan_json(members, addr, pct) {
        Some(after) => {
            proof {
                lemma_save_is_read(all, addr@, pct);
                if reread(settings, DEPTH_LIMIT as nat) {
                    lemma_save_rereads(all, addr@, pct);
                }
            }
            Some(pretty_json(after))
        },
        None => None,
    }
}

proof fn lemma_chosen(entries: Seq<UnderscanEntryView>, addr: Seq<char>)
    ensures
        chosen(entries, addr) matches Some(i) ==> 0 <= i < entries.len(),
{
    lemma_same_entry(entries, entries, addr, 0);
}

proof fn lemma_keys()
    ensures
        "devices"@ != "underscan_pct"@,
        "ip"@ != "underscan_pct"@,
        "port"@ != "underscan_pct"@,
{
    reveal_strlit("devices");
    reveal_strlit("underscan_pct");
    reveal_strlit("ip");
    reveal_strlit("port");
    assert("devices"@.len() == 7 && "underscan_pct"@.len() == 13 && "ip"@.len() == 2 && "port"@.len()
        == 4);
}

/// A save changes one percentage and nothing else. Either no receiver has the address: then every
/// member of the settings but their own percentage stays. Or one has it: then every member but the
/// receivers stays, and so does every other receiver, and all of this one but its percentage.
pub proof fn lemma_save_keeps_the_rest(
    settings: Map<Seq<char>, JsonView>,
    addr: Seq<char>,
    pct: u8,
    key: Seq<char>,
)
    ensures
        kept(settings, addr, pct) matches Some(after) ==> {
            let before = JsonView::Object(settings);
            match chosen(entries_in(before), addr) {
                None => {
                    &&& key != "underscan_pct"@ ==> member(after, key) == member(before, key)
                    &&& member(after, "underscan_pct"@) == Some(JsonView::Unsigned(pct as u64))
                },
                Some(i) => {
                    let was = items_at(before, "devices"@)->Some_0;
                    let is = items_at(after, "devices"@)->Some_0;
                    &&& key != "devices"@ ==> member(after, key) == member(before, key)
                    &&& items_at(after, "devices"@) is Some
                    &&& is.len() == was.len()
                    &&& forall|k: int|
                        0 <= k < was.len() && k != i ==> #[trigger] is[k] == was[k]
                    &&& key != "underscan_pct"@ ==> member(is[i], key) == member(was[i], key)
                    &&& member(is[i], "underscan_pct"@) == Some(JsonView::Unsigned(pct as u64))
                },
            }
        },
{
    lemma_keys();
    lemma_chosen(entries_in(JsonView::Object(settings)), addr);
}

/// The percentage that a save keeps is the one that is read back.
pub proof fn lemma_save_is_read(settings: Map<Seq<char>, JsonView>, addr: Seq<char>, pct: u8)
    ensures
        kept(settings, addr, pct) matches Some(after) ==> underscan_of(after, addr) == within(
            Some(pct as u64),
        ),
{
    let before = JsonView::Object(settings);
    let entries = entries_in(before);
    lemma_keys();
    lemma_chosen(entries, addr);
    if let Some(after) = kept(settings, addr, pct) {
        match chosen(entries, addr) {
            None => {
                assert(entries_in(after) =~= entries);
            },
            Some(i) => {
                let was = items_at(before, "devices"@)->Some_0;
                let item = with_pct(was[i], pct)->Some_0;
                assert(entry_in(item).ip =~= entry_in(was[i]).ip);
                assert(entries_in(after) =~= entries.update(
                    i,
                    UnderscanEntryView { pct: Some(pct as u64), ..entries[i] },
                ));
                lemma_kept_is_read(entries, unsigned_at(before, "underscan_pct"@), addr, pct);
            },
        }
    }
}

/// Settings that read back as they are written still do after a save.
proof fn lemma_save_rereads(settings: Map<Seq<char>, JsonView>, addr: Seq<char>, pct: u8)
    requires
        reread(JsonView::Object(settings), DEPTH_LIMIT as nat),
    ensures
        kept(settings, addr, pct) matches Some(after) ==> reread(after, DEPTH_LIMIT as nat),
{
    let before = JsonView::Object(settings);
    lemma_chosen(entries_in(before), addr);
    let number = JsonView::Unsigned(pct as u64);
    assert(reread(number, 126) && reread(number, 124));
    if let Some(after) = kept(settings, addr, pct) {
        match chosen(entries_in(before), addr) {
            None => {
                assert forall|k: Seq<char>| #[trigger]
                    after->Object_0.contains_key(k) implies reread(after->Object_0[k], 126) by {
                    if k != "underscan_pct"@ {
                        assert(settings.contains_key(k));
                    }
                }
            },
            Some(i) => {
                assert(settings.contains_key("devices"@));
                let was = items_at(before, "devices"@)->Some_0;
                assert(reread(JsonView::Array(was), 126));
                assert(reread(was[i], 125));
                let item = with_pct(was[i], pct)->Some_0;
                assert(reread(item, 125)) by {
                    assert forall|k: Seq<char>| #[trigger]
                        item->Object_0.contains_key(k) implies reread(item->Object_0[k], 124) by {
                        if k != "underscan_pct"@ {
                            assert(was[i]->Object_0.contains_key(k));
                        }
                    }
                }
                let is = was.update(i, item);
                assert(reread(JsonView::Array(is), 126)) by {
                    assert forall|k: int| 0 <= k < is.len() implies reread(
                        #[trigger] is[k],
                        125,
                    ) by {
                        if k != i {
                            assert(reread(was[k], 125));
                        }
                    }
                }
                assert forall|k: Seq<char>| #[trigger]
                    after->Object_0.contains_key(k) implies reread(after->Object_0[k], 126) by {
                    if k != "devices"@ {
                        assert(settings.contains_key(k));
                    }
                }
            },
        }
    }
}

} // verus!
