//! JSON: the tree that the settings are.
use crate::text::same;
use serde_json::{Number, Value};
use vstd::prelude::*;

verus! {

/// A JSON value.
pub enum Json {
    Null,
    Boolean(bool),
    /// A whole number of 64 bits without a sign.
    Unsigned(u64),
    /// Any other number, carried as it is.
    Number(Number),
    Text(String),
    Array(Vec<Json>),
    /// Members in any order; no key occurs twice.
    Object(Vec<Member>),
}

/// A member of an object.
pub struct Member {
    pub key: String,
    pub value: Json,
}

pub enum JsonView {
    Null,
    Boolean(bool),
    Unsigned(u64),
    /// A number by the text that it is written as.
    Number(Seq<char>),
    Text(Seq<char>),
    Array(Seq<JsonView>),
    Object(Map<Seq<char>, JsonView>),
}

/// A JSON number of the `serde_json` crate.
#[verifier::external_type_specification]
#[verifier::external_body]
pub struct ExJsonNumber(Number);

/// A JSON value of the `serde_json` crate.
#[verifier::external_type_specification]
#[verifier::external_body]
pub struct ExJsonValue(Value);

/// The text that a number of the `serde_json` crate is written as.
pub uninterp spec fn number_text(n: Number) -> Seq<char>;

/// What a value of the `serde_json` crate holds: the crate's own variants, a number by whether it is
/// a whole one of 64 bits without a sign, an object by its members, which have no order.
pub uninterp spec fn json_contents(v: Value) -> JsonView;

/// What a text reads as; `None` when it is no JSON.
pub uninterp spec fn json_parsed(text: Seq<char>) -> Option<JsonView>;

/// A value written over several lines.
pub uninterp spec fn json_pretty(v: JsonView) -> Seq<char>;

/// Where a key first stands among members, from number `i` on; their count when it does not.
pub open spec fn place_from(members: Seq<Member>, key: Seq<char>, i: int) -> int
    decreases members.len() - i,
{
    if i >= members.len() {
        members.len() as int
    } else if members[i].key@ == key {
        i
    } else {
        place_from(members, key, i + 1)
    }
}

/// Whether a text consists of digits.
pub open spec fn all_digits(text: Seq<char>) -> bool {
    forall|i: int| 0 <= i < text.len() ==> '0' <= #[trigger] text[i] <= '9'
}

/// Whether a text is that of a whole number below zero.
pub open spec fn negative(text: Seq<char>) -> bool {
    text.len() > 1 && text[0] == '-' && all_digits(text.skip(1))
}

impl Json {
    pub open spec fn model(self) -> JsonView
        decreases self,
    {
        match self {
            Json::Null => JsonView::Null,
            Json::Boolean(b) => JsonView::Boolean(b),
            Json::Unsigned(u) => JsonView::Unsigned(u),
            Json::Number(n) => JsonView::Number(number_text(n)),
            Json::Text(s) => JsonView::Text(s@),
            Json::Array(items) => JsonView::Array(
                Seq::new(
                    items@.len(),
                    |i: int|
                        if 0 <= i < items@.len() {
                            items@[i].model()
                        } else {
                            JsonView::Null
                        },
                ),
            ),
            Json::Object(members) => JsonView::Object(
                Map::new(
                    |k: Seq<char>| 0 <= place_from(members@, k, 0) < members@.len(),
                    |k: Seq<char>|
                        {
                            let i = place_from(members@, k, 0);
                            if 0 <= i < members@.len() {
                                members@[i].value.model()
                            } else {
                                JsonView::Null
                            }
                        },
                ),
            ),
        }
    }

    /// Whether no object holds a key twice, and every number stands in the one form that it has.
    pub open spec fn wf(self) -> bool
        decreases self,
    {
        match self {
            Json::Number(n) => !all_digits(number_text(n)),
            Json::Array(items) => forall|i: int|
                0 <= i < items@.len() ==> (#[trigger] items@[i]).wf(),
            Json::Object(members) => {
                &&& forall|i: int| 0 <= i < members@.len() ==> (#[trigger] members@[i]).value.wf()
                &&& distinct(members@)
            },
            _ => true,
        }
    }
}

impl View for Json {
    type V = JsonView;

    open spec fn view(&self) -> JsonView {
        self.model()
    }
}

/// Whether no key occurs twice.
pub open spec fn distinct(members: Seq<Member>) -> bool {
    forall|i: int, j: int|
        0 <= i < j < members.len() ==> (#[trigger] members[i]).key@ != (#[trigger] members[j]).key@
}

/// The members of an object, by their keys.
pub open spec fn by_key(members: Seq<Member>) -> Map<Seq<char>, JsonView> {
    Map::new(
        |k: Seq<char>| 0 <= place_from(members, k, 0) < members.len(),
        |k: Seq<char>| members[place_from(members, k, 0)].value@,
    )
}

/// Whether a value reads back as it is written: its numbers are whole and of 64 bits, and it is
/// nested no deeper than `depth`.
pub open spec fn reread(v: JsonView, depth: nat) -> bool
    decreases depth,
{
    match v {
        JsonView::Number(text) => negative(text),
        JsonView::Array(items) => depth > 0 && forall|i: int|
            0 <= i < items.len() ==> reread(#[trigger] items[i], (depth - 1) as nat),
        JsonView::Object(members) => depth > 0 && forall|k: Seq<char>| #[trigger]
            members.contains_key(k) ==> reread(members[k], (depth - 1) as nat),
        _ => true,
    }
}

/// How deep a text may be nested that is read.
pub const DEPTH_LIMIT: u8 = 127;

/// Calls `serde_json::from_str` for a `serde_json::Value`: what is read depends on the text alone.
#[verifier::external_body]
fn read_json(text: &str) -> (r: Option<Value>)
    ensures
        match r {
            Some(v) => json_parsed(text@) == Some(json_contents(v)),
            None => json_parsed(text@) is None,
        },
{
    serde_json::from_str(text).ok()
}

/// Calls `serde_json::to_string_pretty`, which fails on no `serde_json::Value`: the text depends on
/// the contents alone. Without fractions, and nested no deeper than is read, it reads back as the
/// same contents; a number with a fraction or an exponent need not read back as itself.
#[verifier::external_body]
fn write_json(v: &Value) -> (r: String)
    ensures
        r@ == json_pretty(json_contents(*v)),
        reread(json_contents(*v), DEPTH_LIMIT as nat) ==> json_parsed(r@) == Some(
            json_contents(*v),
        ),
{
    serde_json::to_string_pretty(v).expect("JSON value")
}

/// Changes a `serde_json::Value` into a `Json`, variant for variant. An object of `serde_json` holds
/// no key twice; the text of a number that is no whole one of 64 bits without a sign has more than
/// digits.
#[verifier::external_body]
fn import(v: Value) -> (r: Json)
    ensures
        r@ == json_contents(v),
        r.wf(),
        r matches Json::Number(n) ==> json_contents(v) == JsonView::Number(number_text(n)),
{
    match v {
        Value::Null => Json::Null,
        Value::Bool(b) => Json::Boolean(b),
        Value::Number(n) => n.as_u64().map(Json::Unsigned).unwrap_or_else(|| Json::Number(n)),
        Value::String(s) => Json::Text(s),
        Value::Array(a) => Json::Array(a.into_iter().map(import).collect()),
        Value::Object(o) => Json::Object(
            o.into_iter().map(|(key, v)| Member { key, value: import(v) }).collect(),
        ),
    }
}

/// Changes a `Json` into a `serde_json::Value`, variant for variant. An object of `serde_json` keeps
/// one value for each key, so no key may occur twice.
#[verifier::external_body]
fn export(v: Json) -> (r: Value)
    requires
        v.wf(),
    ensures
        json_contents(r) == v@,
{
    match v {
        Json::Null => Value::Null,
        Json::Boolean(b) => Value::Bool(b),
        Json::Unsigned(u) => Value::Number(u.into()),
        Json::Number(n) => Value::Number(n),
        Json::Text(s) => Value::String(s),
        Json::Array(a) => Value::Array(a.into_iter().map(export).collect()),
        Json::Object(o) => Value::Object(o.into_iter().map(|m| (m.key, export(m.value))).collect()),
    }
}

/// Reads a JSON text.
pub fn parse_json(text: &str) -> (r: Option<Json>)
    ensures
        match r {
            Some(v) => v.wf() && json_parsed(text@) == Some(v@),
            None => json_parsed(text@) is None,
        },
{
    match read_json(text) {
        Some(v) => Some(import(v)),
        None => None,
    }
}

/// Writes a JSON text over several lines.
pub fn pretty_json(v: Json) -> (r: String)
    requires
        v.wf(),
    ensures
        r@ == json_pretty(v@),
        reread(v@, DEPTH_LIMIT as nat) ==> json_parsed(r@) == Some(v@),
{
    write_json(&export(v))
}

/// The member of an object under a key; `None` too when the value is no object.
pub open spec fn member(v: JsonView, key: Seq<char>) -> Option<JsonView> {
    match v {
        JsonView::Object(members) => if members.contains_key(key) {
            Some(members[key])
        } else {
            None
        },
        _ => None,
    }
}

/// The whole number without a sign under a key.
pub open spec fn unsigned_at(v: JsonView, key: Seq<char>) -> Option<u64> {
    match member(v, key) {
        Some(JsonView::Unsigned(u)) => Some(u),
        _ => None,
    }
}

/// The text under a key.
pub open spec fn text_at(v: JsonView, key: Seq<char>) -> Option<Seq<char>> {
    match member(v, key) {
        Some(JsonView::Text(s)) => Some(s),
        _ => None,
    }
}

/// The items of the array under a key.
pub open spec fn items_at(v: JsonView, key: Seq<char>) -> Option<Seq<JsonView>> {
    match member(v, key) {
        Some(JsonView::Array(items)) => Some(items),
        _ => None,
    }
}

proof fn lemma_place(members: Seq<Member>, key: Seq<char>, i: int)
    requires
        0 <= i <= members.len(),
    ensures
        i <= place_from(members, key, i) <= members.len(),
        place_from(members, key, i) < members.len() ==> members[place_from(
            members,
            key,
            i,
        )].key@ == key,
        forall|k: int|
            i <= k < place_from(members, key, i) ==> (#[trigger] members[k]).key@ != key,
    decreases members.len() - i,
{
    if i < members.len() && members[i].key@ != key {
        lemma_place(members, key, i + 1);
    }
}

/// An object is its members by their keys.
pub proof fn lemma_object(v: Json)
    requires
        v is Object,
    ensures
        v@ == JsonView::Object(by_key(v->Object_0@)),
{
    assert(v@->Object_0 =~= by_key(v->Object_0@));
}

/// Where a key stands among members that hold it once.
proof fn lemma_only_place(members: Seq<Member>, key: Seq<char>, i: int)
    requires
        distinct(members),
        0 <= i < members.len(),
        members[i].key@ == key,
    ensures
        place_from(members, key, 0) == i,
{
    lemma_place(members, key, 0);
    let p = place_from(members, key, 0);
    if p < i {
        assert(members[p].key@ != members[i].key@);
    }
}

fn find_member(members: &[Member], key: &str) -> (r: usize)
    ensures
        r == place_from(members@, key@, 0),
        r <= members@.len(),
{
    let mut i: usize = 0;
    while i < members.len()
        invariant
            i <= members@.len(),
            place_from(members@, key@, 0) == place_from(members@, key@, i as int),
        decreases members.len() - i,
    {
        if same(members[i].key.as_str(), key) {
            return i;
        }
        i += 1;
    }
    i
}

/// Members with one of them put in, in its own place or at the end.
proof fn lemma_replaced(before: Seq<Member>, after: Seq<Member>, i: int)
    requires
        distinct(after),
        0 <= i < after.len(),
        i == place_from(before, after[i].key@, 0),
        i < before.len() ==> after.len() == before.len(),
        i >= before.len() ==> after.len() == before.len() + 1,
        forall|k: int| 0 <= k < before.len() && k != i ==> #[trigger] after[k] == before[k],
    ensures
        by_key(after) == by_key(before).insert(after[i].key@, after[i].value@),
{
    let key = after[i].key@;
    let new = after[i].value@;
    assert forall|k: Seq<char>| #[trigger]
        by_key(after).contains_key(k) == by_key(before).insert(key, new).contains_key(k) && (by_key(
            after,
        ).contains_key(k) ==> by_key(after)[k] == by_key(before).insert(key, new)[k]) by {
        lemma_place(before, k, 0);
        lemma_place(after, k, 0);
        let p = place_from(before, k, 0);
        let q = place_from(after, k, 0);
        if k == key {
            lemma_only_place(after, k, i);
        } else if p < before.len() {
            lemma_place(before, key, 0);
            assert(p != i);
            assert(after[p] == before[p]);
            lemma_only_place(after, k, p);
        } else if q < after.len() {
            assert(q != i);
            assert(before[q].key@ == k);
        }
    }
    assert(by_key(after) =~= by_key(before).insert(key, new));
}

/// Puts a member in, in the place of one under the same key.
pub fn put_member(members: &mut Vec<Member>, key: &str, value: Json)
    requires
        Json::Object(*old(members)).wf(),
        value.wf(),
    ensures
        Json::Object(*final(members)).wf(),
        by_key(final(members)@) == by_key(old(members)@).insert(key@, value@),
{
    let ghost before = members@;
    let i: usize = find_member(members.as_slice(), key);
    let member = Member { key: key.to_owned(), value };
    proof {
        lemma_place(before, key@, 0);
    }
    if i < members.len() {
        members[i] = member;
    } else {
        members.push(member);
    }
    proof {
        let after = members@;
        assert forall|a: int, b: int| 0 <= a < b < after.len() implies (#[trigger] after[a]).key@
            != (#[trigger] after[b]).key@ by {
            if a != i && b != i {
                assert(before[a].key@ != before[b].key@);
            } else if i < before.len() {
                assert(before[a].key@ != before[b].key@);
            } else {
                assert(before[a].key@ != key@);
            }
        }
        assert forall|k: int| 0 <= k < after.len() implies (#[trigger] after[k]).value.wf() by {
            if k != i {
                assert(before[k].value.wf());
            }
        }
        lemma_replaced(before, after, i as int);
    }
}

/// Takes the value of a member out and leaves null in its place.
pub fn take_member(members: &mut Vec<Member>, key: &str) -> (r: Option<Json>)
    requires
        Json::Object(*old(members)).wf(),
    ensures
        Json::Object(*final(members)).wf(),
        match member(JsonView::Object(by_key(old(members)@)), key@) {
            Some(v) => r matches Some(found) && found.wf() && found@ == v && by_key(final(members)@)
                == by_key(old(members)@).insert(key@, JsonView::Null),
            None => r is None && final(members)@ == old(members)@,
        },
{
    let i: usize = find_member(members.as_slice(), key);
    if i >= members.len() {
        return None;
    }
    let mut value = Json::Null;
    let ghost before = members@;
    std::mem::swap(&mut value, &mut members[i].value);
    proof {
        lemma_place(before, key@, 0);
        let after = members@;
        assert(after[i as int].key@ == key@);
        assert forall|a: int, b: int| 0 <= a < b < after.len() implies (#[trigger] after[a]).key@
            != (#[trigger] after[b]).key@ by {
            assert(before[a].key@ != before[b].key@);
        }
        assert forall|k: int| 0 <= k < after.len() implies (#[trigger] after[k]).value.wf() by {
            if k != i {
                assert(before[k].value.wf());
            }
        }
        lemma_replaced(before, after, i as int);
    }
    Some(value)
}

impl Json {
    /// The member of an object under a key; `None` too when the value is no object.
    pub fn get(&self, key: &str) -> (r: Option<&Json>)
        ensures
            match member(self@, key@) {
                Some(v) => r matches Some(found) && found@ == v,
                None => r is None,
            },
            self.wf() ==> (r matches Some(found) ==> found.wf()),
    {
        match self {
            Json::Object(members) => {
                let i: usize = find_member(members.as_slice(), key);
                proof {
                    lemma_object(*self);
                }
                if i < members.len() {
                    Some(&members[i].value)
                } else {
                    None
                }
            },
            _ => None,
        }
    }

    pub fn unsigned_at(&self, key: &str) -> (r: Option<u64>)
        ensures
            r == unsigned_at(self@, key@),
    {
        match self.get(key) {
            Some(Json::Unsigned(u)) => Some(*u),
            _ => None,
        }
    }

    pub fn text_at(&self, key: &str) -> (r: Option<&String>)
        ensures
            match text_at(self@, key@) {
                Some(s) => r matches Some(found) && found@ == s,
                None => r is None,
            },
    {
        match self.get(key) {
            Some(Json::Text(s)) => Some(s),
            _ => None,
        }
    }

    pub fn items_at(&self, key: &str) -> (r: Option<&Vec<Json>>)
        ensures
            match items_at(self@, key@) {
                Some(items) => r matches Some(found) && found@.len() == items.len() && (forall|
                    i: int,
                |
                    0 <= i < items.len() ==> #[trigger] found@[i]@ == items[i]),
                None => r is None,
            },
    {
        match self.get(key) {
            Some(Json::Array(items)) => Some(items),
            _ => None,
        }
    }
}

} // verus!
