//! Property lists: the tree that requests and replies carry.
use crate::text::same;
use plist::Value;
use vstd::prelude::*;

verus! {

/// A property list value. Dates, reals and references, which nothing here reads, are `Other`.
pub enum Plist {
    Array(Vec<Plist>),
    /// Entries in order; no key occurs twice.
    Dictionary(Vec<Entry>),
    Boolean(bool),
    Data(Vec<u8>),
    Integer(i64),
    /// An integer beyond what `Integer` holds.
    Unsigned(u64),
    Text(String),
    Other,
}

/// A dictionary entry.
pub struct Entry {
    pub key: String,
    pub value: Plist,
}

pub enum PlistView {
    Array(Seq<PlistView>),
    Dictionary(Seq<(Seq<char>, PlistView)>),
    Boolean(bool),
    Data(Seq<u8>),
    Integer(i64),
    Unsigned(u64),
    Text(Seq<char>),
    Other,
}

impl Plist {
    pub open spec fn model(self) -> PlistView
        decreases self,
    {
        match self {
            Plist::Array(items) => PlistView::Array(
                Seq::new(
                    items@.len(),
                    |i: int|
                        if 0 <= i < items@.len() {
                            items@[i].model()
                        } else {
                            PlistView::Other
                        },
                ),
            ),
            Plist::Dictionary(entries) => PlistView::Dictionary(
                Seq::new(
                    entries@.len(),
                    |i: int|
                        if 0 <= i < entries@.len() {
                            (entries@[i].key@, entries@[i].value.model())
                        } else {
                            (Seq::empty(), PlistView::Other)
                        },
                ),
            ),
            Plist::Boolean(b) => PlistView::Boolean(b),
            Plist::Data(d) => PlistView::Data(d@),
            Plist::Integer(i) => PlistView::Integer(i),
            Plist::Unsigned(u) => PlistView::Unsigned(u),
            Plist::Text(s) => PlistView::Text(s@),
            Plist::Other => PlistView::Other,
        }
    }
}

impl View for Plist {
    type V = PlistView;

    open spec fn view(&self) -> PlistView {
        self.model()
    }
}

/// Whether every part of a value is of a kind that can be written here, in the one form that it
/// has: an integer that `Integer` can hold is never `Unsigned`.
pub open spec fn plain(v: PlistView) -> bool
    decreases v,
{
    match v {
        PlistView::Array(items) => forall|i: int| 0 <= i < items.len() ==> plain(#[trigger] items[i]),
        PlistView::Dictionary(entries) => forall|i: int|
            0 <= i < entries.len() ==> plain((#[trigger] entries[i]).1),
        PlistView::Unsigned(u) => u > i64::MAX,
        PlistView::Other => false,
        _ => true,
    }
}

/// A property list value of the `plist` crate.
#[verifier::external_type_specification]
#[verifier::external_body]
pub struct ExPlistValue(Value);

/// What a value of the `plist` crate holds: the crate's own variants, an integer by whether it fits
/// 64 bits with a sign, dates, reals and references as `Other`.
pub uninterp spec fn plist_contents(v: Value) -> PlistView;

/// What a byte string reads as; `None` when it is no property list.
pub uninterp spec fn plist_parsed(bytes: Seq<u8>) -> Option<PlistView>;

/// The binary property list of a value; `None` when it cannot be written.
pub uninterp spec fn plist_binary(v: PlistView) -> Option<Seq<u8>>;

/// Calls `plist::Value::from_reader`: what is read depends on the bytes alone.
#[verifier::external_body]
fn read_value(bytes: &[u8]) -> (r: Option<Value>)
    ensures
        match r {
            Some(v) => plist_parsed(bytes@) == Some(plist_contents(v)),
            None => plist_parsed(bytes@) is None,
        },
{
    Value::from_reader(std::io::Cursor::new(bytes)).ok()
}

/// Calls `plist::to_writer_binary`: the bytes depend on the contents of the value alone.
#[verifier::external_body]
fn write_value(v: &Value) -> (r: Option<Vec<u8>>)
    requires
        plain(plist_contents(*v)),
    ensures
        match r {
            Some(b) => plist_binary(plist_contents(*v)) == Some(b@),
            None => plist_binary(plist_contents(*v)) is None,
        },
{
    let mut out = Vec::new();
    ::plist::to_writer_binary(&mut out, v).ok().map(|_| out)
}

/// Changes a `plist::Value` into a `Plist`, variant for variant.
#[verifier::external_body]
fn import(v: Value) -> (r: Plist)
    ensures
        r@ == plist_contents(v),
{
    match v {
        Value::Array(a) => Plist::Array(a.into_iter().map(import).collect()),
        Value::Dictionary(d) => Plist::Dictionary(
            d.into_iter().map(|(key, v)| Entry { key, value: import(v) }).collect(),
        ),
        Value::Boolean(b) => Plist::Boolean(b),
        Value::Data(d) => Plist::Data(d),
        Value::Integer(n) => n.as_signed().map(Plist::Integer).unwrap_or_else(
            || Plist::Unsigned(n.as_unsigned().unwrap_or(0)),
        ),
        Value::String(s) => Plist::Text(s),
        _ => Plist::Other,
    }
}

/// Whether no dictionary of a value holds a key twice.
pub open spec fn distinct_keys(v: PlistView) -> bool
    decreases v,
{
    match v {
        PlistView::Array(items) => forall|i: int|
            0 <= i < items.len() ==> distinct_keys(#[trigger] items[i]),
        PlistView::Dictionary(entries) => {
            &&& forall|i: int| 0 <= i < entries.len() ==> distinct_keys((#[trigger] entries[i]).1)
            &&& forall|i: int, j: int|
                0 <= i < j < entries.len() ==> (#[trigger] entries[i]).0 != (
                #[trigger] entries[j]).0
        },
        _ => true,
    }
}

/// Changes a `Plist` into a `plist::Value`, variant for variant. A `plist` dictionary keeps one
/// value for each key, so no key may occur twice. A `plist` integer does not tell how it was made,
/// so `Unsigned` must hold one that `Integer` cannot.
#[verifier::external_body]
fn export(v: &Plist) -> (r: Value)
    requires
        plain(v@),
        distinct_keys(v@),
    ensures
        plist_contents(r) == v@,
{
    match v {
        Plist::Array(a) => Value::Array(a.iter().map(export).collect()),
        Plist::Dictionary(d) => Value::Dictionary(
            d.iter().map(|e| (e.key.clone(), export(&e.value))).collect(),
        ),
        Plist::Boolean(b) => Value::Boolean(*b),
        Plist::Data(d) => Value::Data(d.clone()),
        Plist::Integer(i) => Value::Integer((*i).into()),
        Plist::Unsigned(u) => Value::Integer((*u).into()),
        Plist::Text(s) => Value::String(s.clone()),
        Plist::Other => Value::Boolean(false),
    }
}

/// Reads a property list.
pub fn parse_plist(bytes: &[u8]) -> (r: Option<Plist>)
    ensures
        match r {
            Some(v) => plist_parsed(bytes@) == Some(v@),
            None => plist_parsed(bytes@) is None,
        },
{
    match read_value(bytes) {
        Some(v) => Some(import(v)),
        None => None,
    }
}

/// Writes a property list in binary form.
pub fn marshal_plist(v: &Plist) -> (r: Option<Vec<u8>>)
    requires
        plain(v@),
        distinct_keys(v@),
    ensures
        match r {
            Some(b) => plist_binary(v@) == Some(b@),
            None => plist_binary(v@) is None,
        },
{
    write_value(&export(v))
}

/// The value under a key of a dictionary's entries, from entry `i` on.
pub open spec fn found_from(
    entries: Seq<(Seq<char>, PlistView)>,
    key: Seq<char>,
    i: int,
) -> Option<PlistView>
    decreases entries.len() - i,
{
    if i >= entries.len() {
        None
    } else if entries[i].0 == key {
        Some(entries[i].1)
    } else {
        found_from(entries, key, i + 1)
    }
}

impl PlistView {
    /// The value under a key; `None` too when the value is no dictionary.
    pub open spec fn get(self, key: Seq<char>) -> Option<PlistView> {
        match self {
            PlistView::Dictionary(entries) => found_from(entries, key, 0),
            _ => None,
        }
    }

    /// The items of an array.
    pub open spec fn items(self) -> Option<Seq<PlistView>> {
        match self {
            PlistView::Array(items) => Some(items),
            _ => None,
        }
    }

    /// An integer as a signed one, wrapping if it is too large.
    pub open spec fn signed(self) -> Option<i64> {
        match self {
            PlistView::Integer(i) => Some(i),
            PlistView::Unsigned(u) => Some(u as i64),
            _ => None,
        }
    }

    /// An integer as an unsigned one, wrapping if it is negative.
    pub open spec fn unsigned(self) -> Option<u64> {
        match self {
            PlistView::Integer(i) => Some(i as u64),
            PlistView::Unsigned(u) => Some(u),
            _ => None,
        }
    }

    pub open spec fn text(self) -> Option<Seq<char>> {
        match self {
            PlistView::Text(s) => Some(s),
            _ => None,
        }
    }
}

/// The integer under a key.
pub open spec fn int_at(v: PlistView, key: Seq<char>) -> Option<i64> {
    match v.get(key) {
        Some(found) => found.signed(),
        None => None,
    }
}

/// The unsigned integer under a key.
pub open spec fn uint_at(v: PlistView, key: Seq<char>) -> Option<u64> {
    match v.get(key) {
        Some(found) => found.unsigned(),
        None => None,
    }
}

/// The text under a key.
pub open spec fn text_at(v: PlistView, key: Seq<char>) -> Option<Seq<char>> {
    match v.get(key) {
        Some(found) => found.text(),
        None => None,
    }
}

/// The array under a key.
pub open spec fn items_at(v: PlistView, key: Seq<char>) -> Option<Seq<PlistView>> {
    match v.get(key) {
        Some(found) => found.items(),
        None => None,
    }
}

impl Plist {
    pub fn get(&self, key: &str) -> (r: Option<&Plist>)
        ensures
            match self@.get(key@) {
                Some(v) => r matches Some(found) && found@ == v,
                None => r is None,
            },
    {
        match self {
            Plist::Dictionary(entries) => {
                let ghost all = self@->Dictionary_0;
                let mut i: usize = 0;
                while i < entries.len()
                    invariant
                        i <= entries@.len(),
                        self@ == PlistView::Dictionary(all),
                        all.len() == entries@.len(),
                        forall|k: int|
                            0 <= k < entries@.len() ==> #[trigger] all[k] == (
                                entries@[k].key@,
                                entries@[k].value@,
                            ),
                        found_from(all, key@, 0) == found_from(all, key@, i as int),
                    decreases entries.len() - i,
                {
                    assert(all[i as int] == (entries@[i as int].key@, entries@[i as int].value@));
                    if same(entries[i].key.as_str(), key) {
                        return Some(&entries[i].value);
                    }
                    i += 1;
                }
                None
            },
            _ => None,
        }
    }

    pub fn is_dictionary(&self) -> (r: bool)
        ensures
            r == (self@ is Dictionary),
    {
        match self {
            Plist::Dictionary(_) => true,
            _ => false,
        }
    }

    pub fn signed(&self) -> (r: Option<i64>)
        ensures
            r == self@.signed(),
    {
        match self {
            Plist::Integer(i) => Some(*i),
            Plist::Unsigned(u) => Some(*u as i64),
            _ => None,
        }
    }

    pub fn unsigned(&self) -> (r: Option<u64>)
        ensures
            r == self@.unsigned(),
    {
        match self {
            Plist::Integer(i) => Some(*i as u64),
            Plist::Unsigned(u) => Some(*u),
            _ => None,
        }
    }

    pub fn int_at(&self, key: &str) -> (r: Option<i64>)
        ensures
            r == int_at(self@, key@),
    {
        match self.get(key) {
            Some(v) => v.signed(),
            None => None,
        }
    }

    pub fn uint_at(&self, key: &str) -> (r: Option<u64>)
        ensures
            r == uint_at(self@, key@),
    {
        match self.get(key) {
            Some(v) => v.unsigned(),
            None => None,
        }
    }

    pub fn text_at(&self, key: &str) -> (r: Option<String>)
        ensures
            match text_at(self@, key@) {
                Some(s) => r matches Some(found) && found@ == s,
                None => r is None,
            },
    {
        match self.get(key) {
            Some(Plist::Text(s)) => Some(s.clone()),
            _ => None,
        }
    }

    pub fn items_at(&self, key: &str) -> (r: Option<&Vec<Plist>>)
        ensures
            match items_at(self@, key@) {
                Some(items) => r matches Some(found) && found@.len() == items.len() && (forall|
                    i: int,
                |
                    0 <= i < items.len() ==> #[trigger] found@[i]@ == items[i]),
                None => r is None,
            },
    {
        match self.get(key) {
            Some(Plist::Array(items)) => Some(items),
            _ => None,
        }
    }
}

/// The entries of a dictionary.
pub open spec fn entry_pairs(entries: Seq<Entry>) -> Seq<(Seq<char>, PlistView)> {
    Seq::new(entries.len(), |i: int| (entries[i].key@, entries[i].value@))
}

/// Where a key stands among a dictionary's entries, from entry `i` on.
pub open spec fn index_from(entries: Seq<(Seq<char>, PlistView)>, key: Seq<char>, i: int) -> Option<
    int,
>
    decreases entries.len() - i,
{
    if i >= entries.len() {
        None
    } else if entries[i].0 == key {
        Some(i)
    } else {
        index_from(entries, key, i + 1)
    }
}

/// A dictionary's entries with a value put under a key: in place of the value there, or behind
/// the others.
#[verifier::opaque]
pub open spec fn put(
    entries: Seq<(Seq<char>, PlistView)>,
    key: Seq<char>,
    value: PlistView,
) -> Seq<(Seq<char>, PlistView)> {
    match index_from(entries, key, 0) {
        Some(i) => entries.update(i, (key, value)),
        None => entries.push((key, value)),
    }
}

/// A dictionary with one entry.
pub open spec fn single(key: Seq<char>, value: PlistView) -> PlistView {
    PlistView::Dictionary(put(Seq::empty(), key, value))
}

/// Whether a value can be written.
pub open spec fn writable(v: PlistView) -> bool {
    plain(v) && distinct_keys(v)
}

proof fn lemma_index(entries: Seq<(Seq<char>, PlistView)>, key: Seq<char>, i: int)
    requires
        0 <= i,
    ensures
        match index_from(entries, key, i) {
            Some(k) => i <= k < entries.len() && entries[k].0 == key && found_from(entries, key, i)
                == Some(entries[k].1) && (forall|j: int| i <= j < k ==> entries[j].0 != key),
            None => found_from(entries, key, i) is None && (forall|j: int|
                i <= j < entries.len() ==> entries[j].0 != key),
        },
    decreases entries.len() - i,
{
    if i < entries.len() && entries[i].0 != key {
        lemma_index(entries, key, i + 1);
    }
}

/// The value put under a key is found there, and every other key keeps its value.
pub proof fn lemma_put_then_get(
    entries: Seq<(Seq<char>, PlistView)>,
    key: Seq<char>,
    value: PlistView,
    other: Seq<char>,
)
    ensures
        PlistView::Dictionary(put(entries, key, value)).get(key) == Some(value),
        other != key ==> PlistView::Dictionary(put(entries, key, value)).get(other)
            == PlistView::Dictionary(entries).get(other),
{
    reveal(put);
    let after = put(entries, key, value);
    lemma_index(entries, key, 0);
    lemma_index(entries, other, 0);
    lemma_index(after, key, 0);
    lemma_index(after, other, 0);
    match index_from(entries, key, 0) {
        Some(k) => {
            assert(after[k] == (key, value));
        },
        None => {
            assert(after[entries.len() as int] == (key, value));
        },
    }
    if let Some(k) = index_from(after, key, 0) {
        assert(k < entries.len() ==> entries[k].0 == key || after[k] == (key, value));
    }
    if other != key {
        match index_from(entries, other, 0) {
            Some(k) => {
                assert(after[k] == entries[k]);
            },
            None => {
                if let Some(k) = index_from(after, other, 0) {
                    assert(k < entries.len() ==> after[k].0 == entries[k].0);
                }
            },
        }
    }
}

proof fn lemma_entry_writable(entries: Seq<(Seq<char>, PlistView)>, i: int)
    requires
        writable(PlistView::Dictionary(entries)),
        0 <= i < entries.len(),
    ensures
        plain(entries[i].1),
        distinct_keys(entries[i].1),
{
    let v = PlistView::Dictionary(entries);
    assert(v->Dictionary_0 == entries);
    assert(plain(v->Dictionary_0[i].1));
    assert(distinct_keys(v->Dictionary_0[i].1));
}

proof fn lemma_keys_differ(entries: Seq<(Seq<char>, PlistView)>, i: int, j: int)
    requires
        distinct_keys(PlistView::Dictionary(entries)),
        0 <= i < j < entries.len(),
    ensures
        entries[i].0 != entries[j].0,
{
    let v = PlistView::Dictionary(entries);
    assert(v->Dictionary_0 == entries);
    assert(v->Dictionary_0[i].0 != v->Dictionary_0[j].0);
}

/// A writable value put under a key leaves a dictionary writable.
pub proof fn lemma_put_writable(
    entries: Seq<(Seq<char>, PlistView)>,
    key: Seq<char>,
    value: PlistView,
)
    requires
        writable(PlistView::Dictionary(entries)),
        writable(value),
    ensures
        writable(PlistView::Dictionary(put(entries, key, value))),
{
    reveal(put);
    lemma_index(entries, key, 0);
    let after = put(entries, key, value);
    assert forall|i: int| 0 <= i < after.len() implies plain((#[trigger] after[i]).1)
        && distinct_keys(after[i].1) by {
        if i < entries.len() {
            lemma_entry_writable(entries, i);
        }
    }
    assert forall|i: int, j: int| 0 <= i < j < after.len() implies (#[trigger] after[i]).0 != (
    #[trigger] after[j]).0 by {
        if j < entries.len() {
            lemma_keys_differ(entries, i, j);
        }
    }
}

/// A dictionary with no entries can be written.
pub proof fn lemma_empty_writable()
    ensures
        writable(PlistView::Dictionary(Seq::empty())),
{
}

fn find_entry(entries: &Vec<Entry>, key: &str) -> (r: Option<usize>)
    ensures
        match index_from(entry_pairs(entries@), key@, 0) {
            Some(i) => r matches Some(k) && k == i && i < entries@.len(),
            None => r is None,
        },
{
    let ghost all = entry_pairs(entries@);
    let mut i: usize = 0;
    while i < entries.len()
        invariant
            i <= entries@.len(),
            all == entry_pairs(entries@),
            index_from(all, key@, 0) == index_from(all, key@, i as int),
        decreases entries.len() - i,
    {
        assert(all[i as int].0 == entries@[i as int].key@);
        if same(entries[i].key.as_str(), key) {
            return Some(i);
        }
        i += 1;
    }
    None
}

/// A dictionary being built.
pub struct Builder {
    entries: Vec<Entry>,
}

impl View for Builder {
    type V = Seq<(Seq<char>, PlistView)>;

    closed spec fn view(&self) -> Seq<(Seq<char>, PlistView)> {
        entry_pairs(self.entries@)
    }
}

impl Builder {
    pub fn new() -> (r: Builder)
        ensures
            r@ == Seq::<(Seq<char>, PlistView)>::empty(),
            writable(PlistView::Dictionary(r@)),
    {
        let r = Builder { entries: Vec::new() };
        proof {
            assert(r@ =~= Seq::<(Seq<char>, PlistView)>::empty());
            lemma_empty_writable();
        }
        r
    }

    /// Puts a value under a key.
    pub fn put(&mut self, key: &str, value: Plist)
        ensures
            final(self)@ == put(old(self)@, key@, value@),
            writable(PlistView::Dictionary(old(self)@)) && writable(value@) ==> writable(
                PlistView::Dictionary(final(self)@),
            ),
    {
        let ghost before = self@;
        let ghost added = value@;
        match find_entry(&self.entries, key) {
            Some(i) => {
                self.entries[i] = entry(key, value);
                assert(self@ =~= before.update(i as int, (key@, added)));
            },
            None => {
                self.entries.push(entry(key, value));
                assert(self@ =~= before.push((key@, added)));
            },
        }
        proof {
            reveal(put);
            if writable(PlistView::Dictionary(before)) && writable(added) {
                lemma_put_writable(before, key@, added);
            }
        }
    }

    pub fn finish(self) -> (r: Plist)
        ensures
            r@ == PlistView::Dictionary(self@),
    {
        let ghost all = self@;
        let r = Plist::Dictionary(self.entries);
        assert(r@->Dictionary_0 =~= all);
        r
    }
}

/// A list of one value.
pub(crate) fn list_of_one(value: Plist) -> (r: Plist)
    ensures
        r@ == PlistView::Array(seq![value@]),
        writable(value@) ==> writable(r@),
{
    let ghost v = value@;
    let mut items: Vec<Plist> = Vec::new();
    items.push(value);
    let r = Plist::Array(items);
    assert(r@->Array_0 =~= seq![v]);
    r
}

/// A dictionary entry.
pub(crate) fn entry(key: &str, value: Plist) -> (r: Entry)
    ensures
        r.key@ == key@,
        r.value == value,
{
    Entry { key: key.to_owned(), value }
}

/// A text value.
pub(crate) fn text(s: &str) -> (r: Plist)
    ensures
        r@ == PlistView::Text(s@),
{
    Plist::Text(s.to_owned())
}

} // verus!
