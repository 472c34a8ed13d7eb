//! Tables that are kept in the order of their keys.
use crate::text::chars;
use vstd::prelude::*;

verus! {

/// Whether one string comes before another, both read from character `i` on.
pub open spec fn before_from(a: Seq<char>, b: Seq<char>, i: int) -> bool
    decreases b.len() - i,
{
    if i >= b.len() {
        false
    } else if i >= a.len() {
        true
    } else if a[i] != b[i] {
        a[i] < b[i]
    } else {
        before_from(a, b, i + 1)
    }
}

/// Whether one string comes before another in the order of their characters.
pub open spec fn before(a: Seq<char>, b: Seq<char>) -> bool {
    before_from(a, b, 0)
}

proof fn lemma_irreflexive(a: Seq<char>, i: int)
    requires
        0 <= i,
    ensures
        !before_from(a, a, i),
    decreases a.len() - i,
{
    if i < a.len() {
        lemma_irreflexive(a, i + 1);
    }
}

proof fn lemma_transitive(a: Seq<char>, b: Seq<char>, c: Seq<char>, i: int)
    requires
        0 <= i,
        before_from(a, b, i),
        before_from(b, c, i),
    ensures
        before_from(a, c, i),
    decreases c.len() - i,
{
    if i < a.len() && i < b.len() && a[i] == b[i] && b[i] == c[i] {
        lemma_transitive(a, b, c, i + 1);
    }
}

proof fn lemma_total(a: Seq<char>, b: Seq<char>, i: int)
    requires
        0 <= i <= a.len(),
        i <= b.len(),
        forall|k: int| 0 <= k < i ==> a[k] == b[k],
    ensures
        before_from(a, b, i) || before_from(b, a, i) || a == b,
    decreases a.len() - i,
{
    if i < a.len() && i < b.len() {
        if a[i] == b[i] {
            lemma_total(a, b, i + 1);
        }
    } else if i == a.len() && i == b.len() {
        assert(a =~= b);
    }
}

/// Of two different strings exactly one comes before the other, and what comes before a string
/// comes before everything behind it.
pub proof fn lemma_order(a: Seq<char>, b: Seq<char>, c: Seq<char>)
    ensures
        !before(a, a),
        before(a, b) && before(b, c) ==> before(a, c),
        a != b ==> before(a, b) != before(b, a),
        a == b ==> !before(a, b),
{
    lemma_irreflexive(a, 0);
    if before(a, b) && before(b, c) {
        lemma_transitive(a, b, c, 0);
    }
    if before(a, b) && before(b, a) {
        lemma_transitive(a, b, a, 0);
    }
    lemma_total(a, b, 0);
}

/// Whether one string comes before another.
pub fn comes_before(a: &str, b: &str) -> (r: bool)
    ensures
        r == before(a@, b@),
{
    let xs: Vec<char> = chars(a);
    let ys: Vec<char> = chars(b);
    let mut i: usize = 0;
    while i < ys.len()
        invariant
            i <= ys@.len(),
            xs@ == a@,
            ys@ == b@,
            before(a@, b@) == before_from(a@, b@, i as int),
        decreases ys.len() - i,
    {
        if i >= xs.len() {
            return true;
        }
        if xs[i] != ys[i] {
            return xs[i] < ys[i];
        }
        i += 1;
    }
    false
}

/// A row of a table.
pub trait Keyed {
    spec fn key(&self) -> Seq<char>;

    fn name(&self) -> (r: &str)
        ensures
            r@ == self.key(),
    ;
}

/// Whether the rows stand in the order of their keys, each key once.
pub open spec fn ordered<T: Keyed>(rows: Seq<T>) -> bool {
    forall|i: int, j: int|
        0 <= i < j < rows.len() ==> before((#[trigger] rows[i]).key(), (#[trigger] rows[j]).key())
}

/// Whether some row has a key.
pub open spec fn has_key<T: Keyed>(rows: Seq<T>, key: Seq<char>) -> bool {
    exists|i: int| 0 <= i < rows.len() && (#[trigger] rows[i]).key() == key
}

/// Where the row with a key stands.
pub open spec fn place<T: Keyed>(rows: Seq<T>, key: Seq<char>) -> int {
    choose|i: int| 0 <= i < rows.len() && (#[trigger] rows[i]).key() == key
}

/// The rows by their keys.
pub open spec fn table<T: Keyed>(rows: Seq<T>) -> Map<Seq<char>, T> {
    Map::new(|key: Seq<char>| has_key(rows, key), |key: Seq<char>| rows[place(rows, key)])
}

proof fn lemma_same_map<T>(a: Map<Seq<char>, T>, b: Map<Seq<char>, T>)
    requires
        forall|key: Seq<char>| #[trigger]
            a.contains_key(key) == b.contains_key(key) && (b.contains_key(key) ==> a[key]
                == b[key]),
    ensures
        a == b,
{
    assert forall|key: Seq<char>| #[trigger] a.dom().contains(key) == b.dom().contains(key) by {
        assert(a.contains_key(key) == b.contains_key(key));
    }
    assert forall|key: Seq<char>| #[trigger] a.dom().contains(key) implies a[key] == b[key] by {
        assert(a.contains_key(key) == b.contains_key(key));
    }
    assert(a =~= b);
}

/// Every row is found under its key.
pub proof fn lemma_row<T: Keyed>(rows: Seq<T>, i: int)
    requires
        ordered(rows),
        0 <= i < rows.len(),
    ensures
        table(rows).contains_key(rows[i].key()),
        table(rows)[rows[i].key()] == rows[i],
        place(rows, rows[i].key()) == i,
{
    let key = rows[i].key();
    assert(has_key(rows, key));
    let p = place(rows, key);
    assert(0 <= p < rows.len() && rows[p].key() == key);
    lemma_order(key, key, key);
    if p < i {
        assert(before(rows[p].key(), rows[i].key()));
    } else if i < p {
        assert(before(rows[i].key(), rows[p].key()));
    }
}

/// Where the row with a key stands, if there is one; else where it would stand.
pub fn locate<T: Keyed>(rows: &Vec<T>, key: &str) -> (r: (bool, usize))
    requires
        ordered(rows@),
    ensures
        r.0 == table(rows@).contains_key(key@),
        r.1 <= rows@.len(),
        r.0 ==> r.1 < rows@.len() && rows@[r.1 as int].key() == key@ && table(rows@)[key@]
            == rows@[r.1 as int],
        forall|i: int| 0 <= i < r.1 ==> before((#[trigger] rows@[i]).key(), key@),
        forall|i: int| r.1 < i < rows@.len() ==> before(key@, (#[trigger] rows@[i]).key()),
        !r.0 && r.1 < rows@.len() ==> before(key@, rows@[r.1 as int].key()),
{
    let mut i: usize = 0;
    while i < rows.len() && comes_before(rows[i].name(), key)
        invariant
            i <= rows@.len(),
            ordered(rows@),
            forall|k: int| 0 <= k < i ==> before((#[trigger] rows@[k]).key(), key@),
        decreases rows.len() - i,
    {
        i += 1;
    }
    if i >= rows.len() {
        proof {
            if has_key(rows@, key@) {
                let p = place(rows@, key@);
                lemma_order(key@, key@, key@);
                assert(before(rows@[p].key(), key@));
            }
        }
        return (false, i);
    }
    let found: bool = !comes_before(key, rows[i].name());
    proof {
        let here = rows@[i as int].key();
        lemma_order(here, key@, key@);
        assert(found == (here == key@));
        assert forall|k: int| i < k < rows@.len() implies before(
            key@,
            (#[trigger] rows@[k]).key(),
        ) by {
            assert(before(rows@[i as int].key(), rows@[k].key()));
            lemma_order(key@, here, rows@[k].key());
        }
        if found {
            lemma_row(rows@, i as int);
        } else if has_key(rows@, key@) {
            let p = place(rows@, key@);
            lemma_order(key@, key@, key@);
            assert(rows@[p].key() == key@);
            assert(p < i || p == i || i < p);
        }
    }
    (found, i)
}

/// Whether a row has a key.
pub fn contains<T: Keyed>(rows: &Vec<T>, key: &str) -> (r: bool)
    requires
        ordered(rows@),
    ensures
        r == table(rows@).contains_key(key@),
{
    locate(rows, key).0
}

/// The row with a key.
pub fn get<'a, T: Keyed>(rows: &'a Vec<T>, key: &str) -> (r: Option<&'a T>)
    requires
        ordered(rows@),
    ensures
        r is Some <==> table(rows@).contains_key(key@),
        r matches Some(row) ==> *row == table(rows@)[key@],
{
    let (found, i) = locate(rows, key);
    if found {
        Some(&rows[i])
    } else {
        None
    }
}

proof fn lemma_inserted<T: Keyed>(rows: Seq<T>, i: int, row: T)
    requires
        ordered(rows),
        0 <= i <= rows.len(),
        forall|k: int| 0 <= k < i ==> before((#[trigger] rows[k]).key(), row.key()),
        forall|k: int| i <= k < rows.len() ==> before(row.key(), (#[trigger] rows[k]).key()),
    ensures
        ordered(rows.insert(i, row)),
        table(rows.insert(i, row)) == table(rows).insert(row.key(), row),
{
    let after = rows.insert(i, row);
    assert forall|a: int, b: int| 0 <= a < b < after.len() implies before(
        (#[trigger] after[a]).key(),
        (#[trigger] after[b]).key(),
    ) by {
        let x = if a > i {
            a - 1
        } else {
            a
        };
        let y = if b > i {
            b - 1
        } else {
            b
        };
        if a != i && b != i {
            assert(before(rows[x].key(), rows[y].key()));
        } else if a == i {
            assert(before(row.key(), rows[y].key()));
        } else {
            assert(before(rows[x].key(), row.key()));
        }
    }
    assert(after[i] == row);
    lemma_row(after, i);
    let m = table(rows).insert(row.key(), row);
    assert forall|key: Seq<char>| #[trigger]
        table(after).contains_key(key) == m.contains_key(key) && (m.contains_key(key)
            ==> table(after)[key] == m[key]) by {
        if has_key(rows, key) {
            let p = place(rows, key);
            lemma_row(rows, p);
            let q = if p < i {
                p
            } else {
                p + 1
            };
            assert(after[q] == rows[p]);
            lemma_row(after, q);
        }
        if has_key(after, key) {
            let q = place(after, key);
            lemma_row(after, q);
            if q != i {
                let p = if q < i {
                    q
                } else {
                    q - 1
                };
                assert(after[q] == rows[p]);
                lemma_row(rows, p);
            }
        }
    }
    lemma_same_map(table(after), m);
}

proof fn lemma_updated<T: Keyed>(rows: Seq<T>, i: int, row: T)
    requires
        ordered(rows),
        0 <= i < rows.len(),
        rows[i].key() == row.key(),
    ensures
        ordered(rows.update(i, row)),
        table(rows.update(i, row)) == table(rows).insert(row.key(), row),
{
    let after = rows.update(i, row);
    assert forall|a: int, b: int| 0 <= a < b < after.len() implies before(
        (#[trigger] after[a]).key(),
        (#[trigger] after[b]).key(),
    ) by {
        assert(before(rows[a].key(), rows[b].key()));
    }
    lemma_row(after, i);
    let m = table(rows).insert(row.key(), row);
    assert forall|key: Seq<char>| #[trigger]
        table(after).contains_key(key) == m.contains_key(key) && (m.contains_key(key)
            ==> table(after)[key] == m[key]) by {
        if has_key(rows, key) {
            let p = place(rows, key);
            lemma_row(rows, p);
            assert(after[p].key() == key);
            lemma_row(after, p);
        }
        if has_key(after, key) {
            let q = place(after, key);
            lemma_row(after, q);
            assert(rows[q].key() == key);
            lemma_row(rows, q);
        }
    }
    lemma_same_map(table(after), m);
}

proof fn lemma_removed<T: Keyed>(rows: Seq<T>, i: int)
    requires
        ordered(rows),
        0 <= i < rows.len(),
    ensures
        ordered(rows.remove(i)),
        table(rows.remove(i)) == table(rows).remove(rows[i].key()),
{
    let after = rows.remove(i);
    let gone = rows[i].key();
    assert forall|a: int, b: int| 0 <= a < b < after.len() implies before(
        (#[trigger] after[a]).key(),
        (#[trigger] after[b]).key(),
    ) by {
        let x = if a >= i {
            a + 1
        } else {
            a
        };
        let y = if b >= i {
            b + 1
        } else {
            b
        };
        assert(before(rows[x].key(), rows[y].key()));
    }
    lemma_row(rows, i);
    let m = table(rows).remove(gone);
    assert forall|key: Seq<char>| #[trigger]
        table(after).contains_key(key) == m.contains_key(key) && (m.contains_key(key)
            ==> table(after)[key] == m[key]) by {
        if has_key(rows, key) && key != gone {
            let p = place(rows, key);
            lemma_row(rows, p);
            let q = if p < i {
                p
            } else {
                p - 1
            };
            assert(after[q] == rows[p]);
            lemma_row(after, q);
        }
        if has_key(after, key) {
            let q = place(after, key);
            lemma_row(after, q);
            let p = if q < i {
                q
            } else {
                q + 1
            };
            assert(after[q] == rows[p]);
            lemma_row(rows, p);
        }
    }
    lemma_same_map(table(after), m);
}

/// A table has as many keys as rows.
pub proof fn lemma_count<T: Keyed>(rows: Seq<T>)
    requires
        ordered(rows),
    ensures
        table(rows).dom().finite(),
        table(rows).dom().len() == rows.len(),
    decreases rows.len(),
{
    if rows.len() == 0 {
        assert(table(rows).dom() =~= Set::<Seq<char>>::empty());
    } else {
        let most = rows.drop_last();
        let last = rows.last();
        assert forall|i: int, j: int| 0 <= i < j < most.len() implies before(
            (#[trigger] most[i]).key(),
            (#[trigger] most[j]).key(),
        ) by {
            assert(before(rows[i].key(), rows[j].key()));
        }
        assert forall|k: int| 0 <= k < most.len() implies before(
            (#[trigger] most[k]).key(),
            last.key(),
        ) by {
            assert(before(rows[k].key(), rows[rows.len() - 1].key()));
        }
        lemma_count(most);
        lemma_inserted(most, most.len() as int, last);
        assert(most.insert(most.len() as int, last) =~= rows);
        assert(!table(most).dom().contains(last.key())) by {
            if has_key(most, last.key()) {
                let p = place(most, last.key());
                lemma_order(last.key(), last.key(), last.key());
                assert(before(most[p].key(), last.key()));
            }
        }
        assert(table(rows).dom() =~= table(most).dom().insert(last.key()));
    }
}

/// Rows without one of them stand as they stood.
pub proof fn lemma_take_row<T: Keyed>(rows: Seq<T>, i: int, after: Seq<T>)
    requires
        ordered(rows),
        ordered(after),
        0 <= i < rows.len(),
        table(after) == table(rows).remove(rows[i].key()),
    ensures
        after == rows.remove(i),
{
    lemma_removed(rows, i);
    lemma_same_rows(after, rows.remove(i));
}

/// Tables with the same rows have them in the same order.
pub proof fn lemma_same_rows<T: Keyed>(a: Seq<T>, b: Seq<T>)
    requires
        ordered(a),
        ordered(b),
        table(a) == table(b),
    ensures
        a == b,
    decreases a.len(),
{
    lemma_count(a);
    lemma_count(b);
    if a.len() > 0 {
        let x = a.last();
        let y = b.last();
        lemma_row(a, a.len() - 1);
        lemma_row(b, b.len() - 1);
        assert(has_key(b, x.key()));
        assert(has_key(a, y.key()));
        let p = place(b, x.key());
        let q = place(a, y.key());
        lemma_order(x.key(), y.key(), x.key());
        lemma_order(y.key(), x.key(), y.key());
        if x.key() != y.key() {
            assert(before(b[p].key(), b[b.len() - 1].key()));
            assert(before(a[q].key(), a[a.len() - 1].key()));
        }
        assert(x == y);
        lemma_removed(a, a.len() - 1);
        lemma_removed(b, b.len() - 1);
        assert(a.remove(a.len() - 1) =~= a.drop_last());
        assert(b.remove(b.len() - 1) =~= b.drop_last());
        lemma_same_rows(a.drop_last(), b.drop_last());
        assert(a =~= a.drop_last().push(x));
        assert(b =~= b.drop_last().push(y));
    } else {
        assert(a =~= b);
    }
}

/// Puts a row under its key, in place of the one there.
pub fn put<T: Keyed>(rows: &mut Vec<T>, row: T)
    requires
        ordered(old(rows)@),
    ensures
        ordered(final(rows)@),
        table(final(rows)@) == table(old(rows)@).insert(row.key(), row),
{
    let (found, i) = locate(rows, row.name());
    let ghost before_rows = rows@;
    let ghost given = row;
    if found {
        proof {
            lemma_updated(before_rows, i as int, given);
        }
        rows.set(i, row);
        assert(rows@ == before_rows.update(i as int, given));
    } else {
        proof {
            lemma_inserted(before_rows, i as int, given);
        }
        rows.insert(i, row);
        assert(rows@ == before_rows.insert(i as int, given));
    }
}

/// Takes the row with a key out.
pub fn take<T: Keyed>(rows: &mut Vec<T>, key: &str) -> (r: Option<T>)
    requires
        ordered(old(rows)@),
    ensures
        ordered(final(rows)@),
        table(final(rows)@) == table(old(rows)@).remove(key@),
        r is Some <==> table(old(rows)@).contains_key(key@),
        r matches Some(row) ==> row == table(old(rows)@)[key@],
{
    let (found, i) = locate(rows, key);
    if !found {
        assert(table(rows@).remove(key@) =~= table(rows@));
        return None;
    }
    proof {
        lemma_removed(rows@, i as int);
    }
    Some(rows.remove(i))
}

} // verus!
