//! Stable sorting of rows by keys of numbers and texts.

use vstd::prelude::*;

use crate::text::{
    lemma_text_le_antisymmetric, lemma_text_le_reflexive, lemma_text_le_total,
    lemma_text_le_transitive, text_at_most,
};

verus! {

/// One part of a sort key.
#[derive(Debug)]
pub enum KeyPart {
    /// Compared as a number.
    Number(u64),
    /// Compared as a text.
    Text(String),
}

/// What a [`KeyPart`] holds.
#[verifier::ext_equal]
pub enum KeyPartView {
    Number(u64),
    Text(Seq<char>),
}

impl DeepView for KeyPart {
    type V = KeyPartView;

    open spec fn deep_view(&self) -> KeyPartView {
        match self {
            KeyPart::Number(n) => KeyPartView::Number(*n),
            KeyPart::Text(t) => KeyPartView::Text(t@),
        }
    }
}

/// A key is compared part by part.
pub type KeyView = Seq<KeyPartView>;

/// Order of key parts: numbers by value, texts by their characters, a number before a text.
pub open spec fn part_le(a: KeyPartView, b: KeyPartView) -> bool {
    match (a, b) {
        (KeyPartView::Number(x), KeyPartView::Number(y)) => x <= y,
        (KeyPartView::Number(_), KeyPartView::Text(_)) => true,
        (KeyPartView::Text(_), KeyPartView::Number(_)) => false,
        (KeyPartView::Text(x), KeyPartView::Text(y)) => crate::text::text_le(x, y),
    }
}

/// Lexicographic order of keys.
pub open spec fn key_le(a: KeyView, b: KeyView) -> bool
    decreases a.len(),
{
    if a.len() == 0 {
        true
    } else if b.len() == 0 {
        false
    } else if a[0] == b[0] {
        key_le(a.drop_first(), b.drop_first())
    } else {
        part_le(a[0], b[0])
    }
}

proof fn lemma_part_le_order(a: KeyPartView, b: KeyPartView, c: KeyPartView)
    ensures
        part_le(a, a),
        part_le(a, b) || part_le(b, a),
        part_le(a, b) && part_le(b, a) ==> a == b,
        part_le(a, b) && part_le(b, c) ==> part_le(a, c),
{
    if let KeyPartView::Text(x) = a {
        lemma_text_le_reflexive(x);
        if let KeyPartView::Text(y) = b {
            lemma_text_le_total(x, y);
            if part_le(a, b) && part_le(b, a) {
                lemma_text_le_antisymmetric(x, y);
            }
            if let KeyPartView::Text(z) = c {
                if part_le(a, b) && part_le(b, c) {
                    lemma_text_le_transitive(x, y, z);
                }
            }
        }
    }
}

/// Every key is at most itself.
pub proof fn lemma_key_le_reflexive(a: KeyView)
    ensures
        key_le(a, a),
    decreases a.len(),
{
    if a.len() > 0 {
        lemma_key_le_reflexive(a.drop_first());
    }
}

/// Of two keys one is at most the other.
pub proof fn lemma_key_le_total(a: KeyView, b: KeyView)
    ensures
        key_le(a, b) || key_le(b, a),
    decreases a.len(),
{
    if a.len() > 0 && b.len() > 0 {
        if a[0] == b[0] {
            lemma_key_le_total(a.drop_first(), b.drop_first());
        } else {
            lemma_part_le_order(a[0], b[0], a[0]);
        }
    }
}

/// The order of keys is transitive.
pub proof fn lemma_key_le_transitive(a: KeyView, b: KeyView, c: KeyView)
    requires
        key_le(a, b),
        key_le(b, c),
    ensures
        key_le(a, c),
    decreases a.len(),
{
    if a.len() > 0 && b.len() > 0 && c.len() > 0 {
        if a[0] == b[0] && b[0] == c[0] {
            lemma_key_le_transitive(a.drop_first(), b.drop_first(), c.drop_first());
        } else {
            lemma_part_le_order(a[0], b[0], c[0]);
            if a[0] == c[0] {
                lemma_part_le_order(b[0], a[0], a[0]);
            }
        }
    }
}

/// Two keys that are at most each other are the same key.
pub proof fn lemma_key_le_antisymmetric(a: KeyView, b: KeyView)
    requires
        key_le(a, b),
        key_le(b, a),
    ensures
        a == b,
    decreases a.len(),
{
    if a.len() > 0 && b.len() > 0 {
        if a[0] == b[0] {
            lemma_key_le_antisymmetric(a.drop_first(), b.drop_first());
            assert(a =~= seq![a[0]] + a.drop_first());
            assert(b =~= seq![b[0]] + b.drop_first());
        } else {
            lemma_part_le_order(a[0], b[0], a[0]);
        }
    } else {
        assert(a =~= b);
    }
}

/// Puts a row behind the last row whose key is at most its own.
pub open spec fn place_row<V>(sorted: Seq<(KeyView, V)>, row: (KeyView, V)) -> Seq<(KeyView, V)>
    decreases sorted.len(),
{
    if sorted.len() == 0 || key_le(sorted.last().0, row.0) {
        sorted.push(row)
    } else {
        place_row(sorted.drop_last(), row).push(sorted.last())
    }
}

/// The rows in the order of their keys; rows with the same key keep their order.
pub open spec fn sort_rows<V>(rows: Seq<(KeyView, V)>) -> Seq<(KeyView, V)>
    decreases rows.len(),
{
    if rows.len() == 0 {
        rows
    } else {
        place_row(sort_rows(rows.drop_last()), rows.last())
    }
}

/// Whether no row stands before one with a smaller key.
pub open spec fn is_sorted<V>(rows: Seq<(KeyView, V)>) -> bool {
    forall|i: int, j: int|
        0 <= i <= j < rows.len() ==> key_le((#[trigger] rows[i]).0, (#[trigger] rows[j]).0)
}

/// The second part of each row.
pub open spec fn row_values<K, V>(rows: Seq<(K, V)>) -> Seq<V> {
    Seq::new(rows.len(), |i: int| rows[i].1)
}

proof fn lemma_place_row<V>(sorted: Seq<(KeyView, V)>, row: (KeyView, V))
    requires
        is_sorted(sorted),
    ensures
        is_sorted(place_row(sorted, row)),
        place_row(sorted, row).to_multiset() == sorted.to_multiset().insert(row),
        place_row(sorted, row).len() == sorted.len() + 1,
        place_row(sorted, row).last() == row || (sorted.len() > 0 && place_row(sorted, row).last()
            == sorted.last()),
    decreases sorted.len(),
{
    broadcast use vstd::seq_lib::group_to_multiset_ensures;

    let r = place_row(sorted, row);
    if sorted.len() == 0 || key_le(sorted.last().0, row.0) {
        assert forall|i: int, j: int| 0 <= i <= j < r.len() implies key_le(
            (#[trigger] r[i]).0,
            (#[trigger] r[j]).0,
        ) by {
            lemma_key_le_reflexive(row.0);
            if j == r.len() - 1 && i < j {
                lemma_key_le_transitive(sorted[i].0, sorted.last().0, row.0);
            }
        }
    } else {
        let head = sorted.drop_last();
        lemma_place_row(head, row);
        lemma_key_le_total(sorted.last().0, row.0);
        let inner = place_row(head, row);
        assert forall|i: int, j: int| 0 <= i <= j < r.len() implies key_le(
            (#[trigger] r[i]).0,
            (#[trigger] r[j]).0,
        ) by {
            lemma_key_le_reflexive(sorted.last().0);
            if j == r.len() - 1 && i < j {
                assert(key_le(inner[i].0, inner.last().0));
                if inner.last() != row {
                    assert(key_le(head.last().0, sorted.last().0));
                }
                lemma_key_le_transitive(inner[i].0, inner.last().0, sorted.last().0);
            }
        }
        assert(sorted =~= head.push(sorted.last()));
        assert(r.to_multiset() =~= sorted.to_multiset().insert(row));
    }
}

/// Sorting orders the rows and neither adds nor loses one.
pub proof fn lemma_sort_rows<V>(rows: Seq<(KeyView, V)>)
    ensures
        is_sorted(sort_rows(rows)),
        sort_rows(rows).to_multiset() == rows.to_multiset(),
        sort_rows(rows).len() == rows.len(),
    decreases rows.len(),
{
    broadcast use vstd::seq_lib::group_to_multiset_ensures;

    if rows.len() > 0 {
        lemma_sort_rows(rows.drop_last());
        lemma_place_row(sort_rows(rows.drop_last()), rows.last());
        assert(rows =~= rows.drop_last().push(rows.last()));
    }
}

/// Whether key `a` is at most key `b`.
pub fn key_at_most(a: &Vec<KeyPart>, b: &Vec<KeyPart>) -> (r: bool)
    ensures
        r == key_le(a.deep_view(), b.deep_view()),
{
    let ghost x = a.deep_view();
    let ghost y = b.deep_view();
    let mut i: usize = 0;
    assert(x.skip(0) =~= x);
    assert(y.skip(0) =~= y);
    while i < a.len() && i < b.len()
        invariant
            x == a.deep_view(),
            y == b.deep_view(),
            i <= a@.len(),
            i <= b@.len(),
            key_le(x, y) == key_le(x.skip(i as int), y.skip(i as int)),
        decreases a@.len() - i,
    {
        proof {
            assert(x.skip(i as int).drop_first() =~= x.skip(i + 1));
            assert(y.skip(i as int).drop_first() =~= y.skip(i + 1));
            assert(x[i as int] == a@[i as int].deep_view());
            assert(y[i as int] == b@[i as int].deep_view());
        }
        match (&a[i], &b[i]) {
            (KeyPart::Number(p), KeyPart::Number(q)) => {
                if *p != *q {
                    return *p < *q;
                }
            },
            (KeyPart::Number(_), KeyPart::Text(_)) => {
                return true;
            },
            (KeyPart::Text(_), KeyPart::Number(_)) => {
                return false;
            },
            (KeyPart::Text(p), KeyPart::Text(q)) => {
                if *p != *q {
                    return text_at_most(p.as_str(), q.as_str());
                }
            },
        }
        i = i + 1;
    }
    i == a.len()
}

fn place<T: DeepView>(rows: &mut Vec<(Vec<KeyPart>, T)>, row: (Vec<KeyPart>, T))
    ensures
        final(rows).deep_view() == place_row(old(rows).deep_view(), row.deep_view()),
{
    let ghost before = rows.deep_view();
    let mut p: usize = rows.len();
    assert(before.take(p as int) =~= before);
    assert(before.skip(p as int) =~= Seq::empty());
    assert(place_row(before, row.deep_view()) =~= place_row(
        before.take(p as int),
        row.deep_view(),
    ) + before.skip(p as int));
    while p > 0 && !key_at_most(&rows[p - 1].0, &row.0)
        invariant
            p <= rows@.len(),
            before == rows.deep_view(),
            place_row(before, row.deep_view()) == place_row(before.take(p as int), row.deep_view())
                + before.skip(p as int),
        ensures
            p <= rows@.len(),
            before == rows.deep_view(),
            place_row(before, row.deep_view()) == place_row(before.take(p as int), row.deep_view())
                + before.skip(p as int),
            p == 0 || key_le(before[p - 1].0, row.deep_view().0),
        decreases p,
    {
        proof {
            let whole = before.take(p as int);
            assert(whole.last() == rows@[p - 1].deep_view());
            assert(whole.drop_last() =~= before.take(p - 1));
            assert(place_row(before.take(p - 1), row.deep_view()).push(before[p - 1])
                + before.skip(p as int) =~= place_row(before.take(p - 1), row.deep_view())
                + before.skip(p - 1));
        }
        p = p - 1;
    }
    let ghost placed = row.deep_view();
    rows.insert(p, row);
    proof {
        assert(before.take(p as int).len() == p);
        assert(p > 0 ==> before.take(p as int).last() == before[p - 1]);
        assert(place_row(before.take(p as int), placed) =~= before.take(p as int).push(placed));
        assert(rows.deep_view() =~= before.take(p as int).push(placed) + before.skip(p as int));
    }
}

/// Sorts the rows by their keys; rows with the same key keep their order.
pub fn sort<T: DeepView>(rows: Vec<(Vec<KeyPart>, T)>) -> (r: Vec<(Vec<KeyPart>, T)>)
    ensures
        r.deep_view() == sort_rows(rows.deep_view()),
{
    let ghost all = rows.deep_view();
    let mut rest = rows;
    let mut reversed: Vec<(Vec<KeyPart>, T)> = Vec::new();
    while rest.len() > 0
        invariant
            rest@.len() + reversed@.len() == all.len(),
            forall|i: int| 0 <= i < rest@.len() ==> (#[trigger] rest@[i]).deep_view() == all[i],
            forall|i: int|
                0 <= i < reversed@.len() ==> (#[trigger] reversed@[i]).deep_view() == all[all.len() - 1
                    - i],
        decreases rest@.len(),
    {
        let ghost before = rest@;
        if let Some(row) = rest.pop() {
            assert(row == before[before.len() - 1]);
            reversed.push(row);
        }
    }
    let mut r: Vec<(Vec<KeyPart>, T)> = Vec::new();
    assert(all.take(0) =~= Seq::empty());
    assert(r.deep_view() =~= Seq::empty());
    while reversed.len() > 0
        invariant
            reversed@.len() <= all.len(),
            forall|i: int|
                0 <= i < reversed@.len() ==> (#[trigger] reversed@[i]).deep_view() == all[all.len() - 1
                    - i],
            r.deep_view() == sort_rows(all.take(all.len() - reversed@.len())),
        decreases reversed@.len(),
    {
        let ghost before = reversed@;
        if let Some(row) = reversed.pop() {
            proof {
                let n = all.len() - before.len();
                assert(row == before[before.len() - 1]);
                assert(row.deep_view() == all[n as int]);
                assert(all.take(n + 1).drop_last() =~= all.take(n as int));
                assert(all.take(n + 1).last() == row.deep_view());
            }
            place(&mut r, row);
        }
    }
    assert(all.take(all.len() as int) =~= all);
    r
}

/// Sorts the rows by their keys and drops the keys.
pub fn sort_values<T: DeepView>(rows: Vec<(Vec<KeyPart>, T)>) -> (r: Vec<T>)
    ensures
        r.deep_view() == row_values(sort_rows(rows.deep_view())),
{
    let mut sorted = sort(rows);
    let ghost all = sorted.deep_view();
    let mut reversed: Vec<T> = Vec::new();
    while sorted.len() > 0
        invariant
            sorted@.len() + reversed@.len() == all.len(),
            forall|i: int| 0 <= i < sorted@.len() ==> (#[trigger] sorted@[i]).deep_view() == all[i],
            forall|i: int|
                0 <= i < reversed@.len() ==> (#[trigger] reversed@[i]).deep_view() == all[all.len() - 1
                    - i].1,
        decreases sorted@.len(),
    {
        let ghost before = sorted@;
        if let Some(row) = sorted.pop() {
            assert(row == before[before.len() - 1]);
            assert(row.deep_view() == all[before.len() - 1]);
            reversed.push(row.1);
        }
    }
    let mut r: Vec<T> = Vec::new();
    while reversed.len() > 0
        invariant
            r@.len() + reversed@.len() == all.len(),
            forall|i: int|
                0 <= i < reversed@.len() ==> (#[trigger] reversed@[i]).deep_view() == all[all.len() - 1
                    - i].1,
            forall|i: int| 0 <= i < r@.len() ==> (#[trigger] r@[i]).deep_view() == all[i].1,
        decreases reversed@.len(),
    {
        let ghost before = reversed@;
        if let Some(value) = reversed.pop() {
            assert(value == before[before.len() - 1]);
            r.push(value);
        }
    }
    assert(r.deep_view() =~= row_values(all));
    r
}

} // verus!
