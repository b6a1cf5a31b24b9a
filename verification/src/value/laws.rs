//! What holds of the equality of value trees.

use crate::value::{
    distinct_keys, has_key, index_of, insert_entry, lemma_index_of_unique, lookup, TableView,
    ValueView,
};
use vstd::prelude::*;

verus! {

impl ValueView {
    /// Whether no table of the tree holds a key twice.
    pub open spec fn well_formed(self) -> bool
        decreases self,
    {
        match self {
            ValueView::Array(items) => forall|i: int|
                0 <= i < items.len() ==> (#[trigger] items[i]).well_formed(),
            ValueView::Table(entries) => distinct_keys(entries) && forall|i: int|
                0 <= i < entries.len() ==> (#[trigger] entries[i]).1.well_formed(),
            _ => true,
        }
    }
}

/// Each item of a well-formed array is well formed, and so is each value of
/// a well-formed table.
pub proof fn lemma_well_formed_parts(v: ValueView, i: int)
    requires
        v.well_formed(),
    ensures
        v matches ValueView::Array(items) ==> (0 <= i < items.len() ==> items[i].well_formed()),
        v matches ValueView::Table(entries) ==> distinct_keys(entries) && (0 <= i < entries.len()
            ==> entries[i].1.well_formed()),
{
}

/// The keys of a table, in the order of its entries.
pub open spec fn keys_of(t: TableView) -> Seq<Seq<char>> {
    Seq::new(t.len(), |i: int| t[i].0)
}

/// Every tree equals itself.
pub proof fn lemma_equals_reflexive(v: ValueView)
    ensures
        v.equals(v),
    decreases v,
{
    match v {
        ValueView::Array(items) => {
            assert forall|i: int| 0 <= i < items.len() implies (#[trigger] items[i]).equals(
                items[i],
            ) by {
                lemma_equals_reflexive(items[i]);
            }
        },
        ValueView::Table(entries) => {
            assert forall|i: int| 0 <= i < entries.len() implies (#[trigger] entries[i]).1.stored_under(
                entries[i].0,
                entries,
            ) by {
                lemma_equals_reflexive(entries[i].1);
            }
        },
        _ => {},
    }
}

/// Two tables with the same entries compare equal, whatever the order in
/// which the entries were inserted.
pub proof fn lemma_table_order_is_irrelevant(a: TableView, b: TableView)
    requires
        a.to_multiset() == b.to_multiset(),
    ensures
        ValueView::Table(a).equals(ValueView::Table(b)),
{
    vstd::seq_lib::to_multiset_len(a);
    vstd::seq_lib::to_multiset_len(b);
    assert forall|i: int| 0 <= i < a.len() implies (#[trigger] a[i]).1.stored_under(a[i].0, b) by {
        vstd::seq_lib::to_multiset_contains(a, a[i]);
        vstd::seq_lib::to_multiset_contains(b, a[i]);
        assert(a.contains(a[i]));
        let j = choose|j: int| 0 <= j < b.len() && b[j] == a[i];
        lemma_equals_reflexive(a[i].1);
        assert(b[j].0 == a[i].0 && a[i].1.equals(b[j].1));
    }
}

/// Two arrays compare equal only where they agree position by position:
/// exchanging two items that are not equal gives an array that is not equal
/// to the first.
pub proof fn lemma_array_order_matters(items: Seq<ValueView>, i: int, j: int)
    requires
        0 <= i < items.len(),
        0 <= j < items.len(),
        !items[i].equals(items[j]),
    ensures
        !ValueView::Array(items).equals(
            ValueView::Array(items.update(i, items[j]).update(j, items[i])),
        ),
{
    let swapped = items.update(i, items[j]).update(j, items[i]);
    if i == j {
        lemma_equals_reflexive(items[i]);
    }
    assert(swapped[i] == items[j]);
    assert(!(items[i]).equals(swapped[i]));
}

/// Trees that equal the same tree equal each other.
pub proof fn lemma_equals_transitive(a: ValueView, b: ValueView, c: ValueView)
    requires
        a.equals(b),
        b.equals(c),
    ensures
        a.equals(c),
    decreases a,
{
    match (a, b, c) {
        (ValueView::Array(x), ValueView::Array(y), ValueView::Array(z)) => {
            assert forall|i: int| 0 <= i < x.len() implies (#[trigger] x[i]).equals(z[i]) by {
                assert(x[i].equals(y[i]));
                assert(y[i].equals(z[i]));
                lemma_equals_transitive(x[i], y[i], z[i]);
            }
        },
        (ValueView::Table(x), ValueView::Table(y), ValueView::Table(z)) => {
            assert forall|i: int| 0 <= i < x.len() implies (#[trigger] x[i]).1.stored_under(
                x[i].0,
                z,
            ) by {
                assert(x[i].1.stored_under(x[i].0, y));
                let j = choose|j: int|
                    0 <= j < y.len() && (#[trigger] y[j]).0 == x[i].0 && x[i].1.equals(y[j].1);
                assert(y[j].1.stored_under(y[j].0, z));
                let k = choose|k: int|
                    0 <= k < z.len() && (#[trigger] z[k]).0 == y[j].0 && y[j].1.equals(z[k].1);
                lemma_equals_transitive(x[i].1, y[j].1, z[k].1);
            }
        },
        _ => {},
    }
}

/// In a table without a repeated key, as many keys occur as there are
/// entries.
proof fn lemma_key_count(t: TableView)
    requires
        distinct_keys(t),
    ensures
        keys_of(t).to_set().finite(),
        keys_of(t).to_set().len() == t.len(),
{
    let keys = keys_of(t);
    assert forall|i: int, j: int| 0 <= i < keys.len() && 0 <= j < keys.len() && i != j implies keys[i]
        != keys[j] by {
        if i < j {
            assert(t[i].0 != t[j].0);
        } else {
            assert(t[j].0 != t[i].0);
        }
    }
    keys.unique_seq_to_set();
    vstd::seq_lib::seq_to_set_is_finite(keys);
}

/// On trees whose tables hold no key twice, equality does not depend on the
/// side a tree stands on.
pub proof fn lemma_equals_symmetric(a: ValueView, b: ValueView)
    requires
        a.well_formed(),
        b.well_formed(),
        a.equals(b),
    ensures
        b.equals(a),
    decreases a,
{
    match (a, b) {
        (ValueView::Array(x), ValueView::Array(y)) => {
            assert forall|i: int| 0 <= i < y.len() implies (#[trigger] y[i]).equals(x[i]) by {
                assert(x[i].equals(y[i]));
                assert(x[i].well_formed());
                assert(y[i].well_formed());
                lemma_equals_symmetric(x[i], y[i]);
            }
        },
        (ValueView::Table(x), ValueView::Table(y)) => {
            let kx = keys_of(x);
            let ky = keys_of(y);
            lemma_key_count(x);
            lemma_key_count(y);
            assert(kx.to_set().subset_of(ky.to_set())) by {
                assert forall|key: Seq<char>| kx.to_set().contains(key) implies ky.to_set().contains(
                    key,
                ) by {
                    let i = choose|i: int| 0 <= i < kx.len() && kx[i] == key;
                    assert(x[i].1.stored_under(x[i].0, y));
                    let j = choose|j: int|
                        0 <= j < y.len() && (#[trigger] y[j]).0 == x[i].0 && x[i].1.equals(
                            y[j].1,
                        );
                    assert(ky[j] == key);
                }
            }
            vstd::set_lib::lemma_subset_equality(kx.to_set(), ky.to_set());
            assert forall|j: int| 0 <= j < y.len() implies (#[trigger] y[j]).1.stored_under(
                y[j].0,
                x,
            ) by {
                assert(ky[j] == y[j].0);
                assert(ky.to_set().contains(y[j].0));
                assert(kx.to_set().contains(y[j].0));
                let i = choose|i: int| 0 <= i < kx.len() && kx[i] == y[j].0;
                assert(x[i].1.stored_under(x[i].0, y));
                let m = choose|m: int|
                    0 <= m < y.len() && (#[trigger] y[m]).0 == x[i].0 && x[i].1.equals(y[m].1);
                if m < j {
                    assert(y[m].0 != y[j].0);
                } else if j < m {
                    assert(y[j].0 != y[m].0);
                }
                assert(x[i].1.well_formed());
                assert(y[j].1.well_formed());
                lemma_equals_symmetric(x[i].1, y[j].1);
                assert(x[i].0 == y[j].0 && y[j].1.equals(x[i].1));
            }
        },
        _ => {},
    }
}

/// Storing a value under a key keeps the keys of a table distinct.
pub proof fn lemma_insert_entry_distinct(t: TableView, key: Seq<char>, value: ValueView)
    requires
        distinct_keys(t),
    ensures
        distinct_keys(insert_entry(t, key, value)),
{
    let after = insert_entry(t, key, value);
    assert forall|a: int, b: int| 0 <= a < b < after.len() implies (#[trigger] after[a]).0 != (
    #[trigger] after[b]).0 by {
        if has_key(t, key) {
            assert(t[a].0 != t[b].0);
        } else if b == after.len() - 1 {
            assert(t[a].0 != key);
        } else {
            assert(t[a].0 != t[b].0);
        }
    }
}

/// What is stored under a key is what a lookup of the key finds.
pub proof fn lemma_insert_then_lookup(t: TableView, key: Seq<char>, value: ValueView)
    requires
        distinct_keys(t),
    ensures
        lookup(insert_entry(t, key, value), key) == Some(value),
{
    let after = insert_entry(t, key, value);
    lemma_insert_entry_distinct(t, key, value);
    let at = if has_key(t, key) {
        index_of(t, key)
    } else {
        t.len() as int
    };
    assert(after[at] == (key, value));
    lemma_index_of_unique(after, at);
}

/// Storing a value under a key leaves every other key with its value and
/// every entry in its place; a new key comes last.
pub proof fn lemma_insert_keeps_the_rest(t: TableView, key: Seq<char>, value: ValueView, i: int)
    requires
        distinct_keys(t),
        0 <= i < t.len(),
    ensures
        insert_entry(t, key, value).len() == (if has_key(t, key) {
            t.len()
        } else {
            t.len() + 1
        }),
        insert_entry(t, key, value)[i].0 == t[i].0,
        t[i].0 != key ==> insert_entry(t, key, value)[i] == t[i],
        t[i].0 == key ==> insert_entry(t, key, value)[i] == (key, value),
{
    if has_key(t, key) && t[i].0 == key {
        lemma_index_of_unique(t, i);
    }
}

} // verus!
