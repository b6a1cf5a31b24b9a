//! The value tree: a recursive tagged union with ordered, key-unique tables.

use vstd::prelude::*;
use vstd::std_specs::cmp::PartialEqSpecImpl;
use vstd::std_specs::convert::FromSpecImpl;

pub mod expr;
pub mod key;
pub mod laws;
pub mod ser;

verus! {

/// The mathematical model of a [`Table`]: its entries in insertion order.
pub type TableView = Seq<(Seq<char>, ValueView)>;

/// The mathematical model of a [`Value`].
pub enum ValueView {
    Null,
    Boolean(bool),
    Integer(i64),
    Float(u64),
    String(Seq<char>),
    Array(Seq<ValueView>),
    Table(TableView),
}

/// An ordered mapping from text keys to values. Entries keep the order in
/// which their keys were first inserted, and no key occurs twice.
#[derive(Debug)]
pub struct Table {
    entries: Vec<(String, Value)>,
}

/// A node of the value tree.
#[derive(Debug)]
pub enum Value {
    /// Absence of a value.
    Null,
    Boolean(bool),
    Integer(i64),
    /// A 64-bit IEEE-754 number, held as its bit pattern.
    Float(u64),
    String(String),
    Array(Vec<Value>),
    Table(Table),
}

impl ValueView {
    /// Structural equality of value trees. Scalars are equal where variant and
    /// payload are, floats by their bits. Arrays are compared position by
    /// position; tables are compared key by key, whatever the order of their
    /// entries.
    pub open spec fn equals(self, other: ValueView) -> bool
        decreases self, 0int,
    {
        match (self, other) {
            (ValueView::Null, ValueView::Null) => true,
            (ValueView::Boolean(x), ValueView::Boolean(y)) => x == y,
            (ValueView::Integer(x), ValueView::Integer(y)) => x == y,
            (ValueView::Float(x), ValueView::Float(y)) => x == y,
            (ValueView::String(x), ValueView::String(y)) => x == y,
            (ValueView::Array(x), ValueView::Array(y)) => {
                &&& x.len() == y.len()
                &&& forall|i: int| 0 <= i < x.len() ==> (#[trigger] x[i]).equals(y[i])
            },
            (ValueView::Table(x), ValueView::Table(y)) => {
                &&& x.len() == y.len()
                &&& forall|i: int|
                    0 <= i < x.len() ==> (#[trigger] x[i]).1.stored_under(x[i].0, y)
            },
            _ => false,
        }
    }

    /// Whether `table` holds, under the key `key`, a value equal to this one.
    pub open spec fn stored_under(self, key: Seq<char>, table: TableView) -> bool
        decreases self, 1int,
    {
        exists|j: int|
            0 <= j < table.len() && (#[trigger] table[j]).0 == key && self.equals(table[j].1)
    }
}

/// No two entries of `t` share a key.
pub open spec fn distinct_keys(t: TableView) -> bool {
    forall|i: int, j: int|
        0 <= i < j < t.len() ==> (#[trigger] t[i]).0 != (#[trigger] t[j]).0
}

/// Some entry of `t` has the key `key`.
pub open spec fn has_key(t: TableView, key: Seq<char>) -> bool {
    exists|i: int| 0 <= i < t.len() && (#[trigger] t[i]).0 == key
}

/// The position of an entry of `t` with the key `key`; with distinct keys
/// there is at most one.
pub open spec fn index_of(t: TableView, key: Seq<char>) -> int {
    choose|i: int| 0 <= i < t.len() && (#[trigger] t[i]).0 == key
}

/// The value stored under `key`, if any.
pub open spec fn lookup(t: TableView, key: Seq<char>) -> Option<ValueView> {
    if has_key(t, key) {
        Some(t[index_of(t, key)].1)
    } else {
        None
    }
}

/// `t` after storing `value` under `key`: an existing entry is overwritten
/// where it stands, a new key is appended.
pub open spec fn insert_entry(t: TableView, key: Seq<char>, value: ValueView) -> TableView {
    if has_key(t, key) {
        t.update(index_of(t, key), (key, value))
    } else {
        t.push((key, value))
    }
}

/// The models of a sequence of values, in order.
pub open spec fn views_of(items: Seq<Value>) -> Seq<ValueView> {
    Seq::new(items.len(), |i: int| items[i]@)
}

/// The models of a list of keyed values, in order.
pub open spec fn pairs_of(entries: Seq<(String, Value)>) -> TableView {
    Seq::new(entries.len(), |i: int| (entries[i].0@, entries[i].1@))
}

/// The table that results from inserting `pairs` one after the other into an
/// empty table.
pub open spec fn collect_entries(pairs: TableView) -> TableView
    decreases pairs.len(),
{
    if pairs.len() == 0 {
        Seq::empty()
    } else {
        insert_entry(collect_entries(pairs.drop_last()), pairs.last().0, pairs.last().1)
    }
}

/// With distinct keys, the entry found for a key is the only one with it.
pub proof fn lemma_index_of_unique(t: TableView, i: int)
    requires
        distinct_keys(t),
        0 <= i < t.len(),
    ensures
        has_key(t, t[i].0),
        index_of(t, t[i].0) == i,
{
    let j = index_of(t, t[i].0);
    assert(0 <= j < t.len() && t[j].0 == t[i].0);
    if j < i {
        assert(t[j].0 != t[i].0);
    } else if i < j {
        assert(t[i].0 != t[j].0);
    }
}

/// The models of the first `n` values of `items`, in order.
pub open spec fn views_upto(items: Vec<Value>, n: int) -> Seq<ValueView>
    decreases items, n,
{
    if 0 < n <= items@.len() {
        views_upto(items, n - 1).push(items@[n - 1].view())
    } else {
        Seq::empty()
    }
}

/// The models of the first `n` entries of `entries`, in order.
pub open spec fn entries_upto(entries: Vec<(String, Value)>, n: int) -> TableView
    decreases entries, n,
{
    if 0 < n <= entries@.len() {
        entries_upto(entries, n - 1).push((entries@[n - 1].0@, entries@[n - 1].1.view()))
    } else {
        Seq::empty()
    }
}

impl View for Value {
    type V = ValueView;

    open spec fn view(&self) -> ValueView
        decreases self, 0int,
    {
        match self {
            Value::Null => ValueView::Null,
            Value::Boolean(b) => ValueView::Boolean(*b),
            Value::Integer(n) => ValueView::Integer(*n),
            Value::Float(bits) => ValueView::Float(*bits),
            Value::String(s) => ValueView::String(s@),
            Value::Array(items) => ValueView::Array(views_upto(*items, items@.len() as int)),
            Value::Table(t) => ValueView::Table(t.view()),
        }
    }
}

impl View for Table {
    type V = TableView;

    closed spec fn view(&self) -> TableView
        decreases self, 0int,
    {
        entries_upto(self.entries, self.entries@.len() as int)
    }
}

/// The model of an array lists the models of its items.
pub proof fn lemma_views_upto(items: Vec<Value>, n: int)
    requires
        0 <= n <= items@.len(),
    ensures
        views_upto(items, n).len() == n,
        forall|i: int| 0 <= i < n ==> (#[trigger] views_upto(items, n)[i]) == items@[i]@,
    decreases n,
{
    if n > 0 {
        lemma_views_upto(items, n - 1);
        assert(views_upto(items, n) == views_upto(items, n - 1).push(items@[n - 1].view()));
    } else {
        assert(views_upto(items, n) == Seq::<ValueView>::empty());
    }
}

proof fn lemma_entries_upto(entries: Vec<(String, Value)>, n: int)
    requires
        0 <= n <= entries@.len(),
    ensures
        entries_upto(entries, n).len() == n,
        forall|i: int|
            0 <= i < n ==> (#[trigger] entries_upto(entries, n)[i]) == (
                entries@[i].0@,
                entries@[i].1@,
            ),
    decreases n,
{
    if n > 0 {
        lemma_entries_upto(entries, n - 1);
        assert(entries_upto(entries, n) == entries_upto(entries, n - 1).push(
            (entries@[n - 1].0@, entries@[n - 1].1.view()),
        ));
    } else {
        assert(entries_upto(entries, n) == Seq::<(Seq<char>, ValueView)>::empty());
    }
}

/// The model of an array holds, position by position, the models of its
/// items.
pub proof fn lemma_array_view(items: Vec<Value>)
    ensures
        Value::Array(items)@ == ValueView::Array(views_of(items@)),
{
    lemma_views_upto(items, items@.len() as int);
    assert(views_upto(items, items@.len() as int) =~= views_of(items@));
}

impl Table {
    #[verifier::type_invariant]
    spec fn keys_unique(&self) -> bool {
        distinct_keys(self@)
    }

    proof fn lemma_entries(&self)
        ensures
            self@.len() == self.entries@.len(),
            forall|i: int|
                0 <= i < self.entries@.len() ==> #[trigger] self@[i] == (
                    self.entries@[i].0@,
                    self.entries@[i].1@,
                ),
    {
        lemma_entries_upto(self.entries, self.entries@.len() as int);
    }

    /// An empty table.
    pub fn new() -> (t: Table)
        ensures
            t@ == Seq::<(Seq<char>, ValueView)>::empty(),
    {
        let t = Table { entries: Vec::new() };
        proof {
            t.lemma_entries();
        }
        t
    }

    /// The number of entries.
    pub fn len(&self) -> (n: usize)
        ensures
            n == self@.len(),
            distinct_keys(self@),
    {
        proof {
            use_type_invariant(self);
            self.lemma_entries();
        }
        self.entries.len()
    }

    /// Whether the table has no entry.
    pub fn is_empty(&self) -> (b: bool)
        ensures
            b == (self@.len() == 0),
    {
        proof {
            self.lemma_entries();
        }
        self.entries.len() == 0
    }

    /// The position of the entry stored under `key`.
    pub fn position(&self, key: &str) -> (r: Option<usize>)
        ensures
            distinct_keys(self@),
            match r {
                Some(i) => has_key(self@, key@) && i == index_of(self@, key@) && i < self@.len()
                    && self@[i as int].0 == key@,
                None => !has_key(self@, key@),
            },
    {
        proof {
            use_type_invariant(self);
            self.lemma_entries();
        }
        let mut i: usize = 0;
        while i < self.entries.len()
            invariant
                i <= self.entries@.len(),
                self@.len() == self.entries@.len(),
                distinct_keys(self@),
                forall|k: int|
                    0 <= k < self.entries@.len() ==> #[trigger] self@[k] == (
                        self.entries@[k].0@,
                        self.entries@[k].1@,
                    ),
                forall|j: int| 0 <= j < i ==> (#[trigger] self@[j]).0 != key@,
            decreases self.entries@.len() - i,
        {
            if self.entries[i].0.as_str().eq(key) {
                proof {
                    lemma_index_of_unique(self@, i as int);
                }
                return Some(i);
            }
            i += 1;
        }
        None
    }

    /// Whether an entry is stored under `key`.
    pub fn contains_key(&self, key: &str) -> (b: bool)
        ensures
            b == has_key(self@, key@),
    {
        self.position(key).is_some()
    }

    /// The value stored under `key`; `None` tells a missing key apart from a
    /// key that holds `Null`.
    pub fn get(&self, key: &str) -> (r: Option<&Value>)
        ensures
            match r {
                Some(v) => lookup(self@, key@) == Some(v@),
                None => lookup(self@, key@) is None,
            },
    {
        proof {
            self.lemma_entries();
        }
        match self.position(key) {
            Some(i) => Some(&self.entries[i].1),
            None => None,
        }
    }

    /// The key of the entry at position `i`.
    pub fn key_at(&self, i: usize) -> (k: &String)
        requires
            i < self@.len(),
        ensures
            k@ == self@[i as int].0,
    {
        proof {
            self.lemma_entries();
        }
        &self.entries[i].0
    }

    /// The value of the entry at position `i`.
    pub fn value_at(&self, i: usize) -> (v: &Value)
        requires
            i < self@.len(),
        ensures
            v@ == self@[i as int].1,
    {
        proof {
            self.lemma_entries();
        }
        &self.entries[i].1
    }

    /// Stores `value` under `key` and hands back the value it replaced, if
    /// there was one. An existing entry keeps its position.
    pub fn insert(&mut self, key: String, value: Value) -> (previous: Option<Value>)
        ensures
            final(self)@ == insert_entry(old(self)@, key@, value@),
            distinct_keys(final(self)@),
            match previous {
                Some(v) => lookup(old(self)@, key@) == Some(v@),
                None => lookup(old(self)@, key@) is None,
            },
    {
        proof {
            use_type_invariant(&*self);
        }
        let found = self.position(key.as_str());
        proof {
            self.lemma_entries();
        }
        let mut entries: Vec<(String, Value)> = Vec::new();
        std::mem::swap(&mut self.entries, &mut entries);
        let previous = match found {
            Some(i) => {
                let mut entry = (key, value);
                entries.set_and_swap(i, &mut entry);
                Some(entry.1)
            },
            None => {
                entries.push((key, value));
                None
            },
        };
        proof {
            let after = Table { entries };
            after.lemma_entries();
            assert(after@ =~= insert_entry(old(self)@, key@, value@));
            if found is None {
                assert forall|a: int, b: int| 0 <= a < b < after@.len() implies (#[trigger] after@[a]).0
                    != (#[trigger] after@[b]).0 by {
                    if b == after@.len() - 1 {
                        assert(old(self)@[a].0 != key@);
                    } else {
                        assert(old(self)@[a].0 != old(self)@[b].0);
                    }
                }
            } else {
                assert forall|a: int, b: int| 0 <= a < b < after@.len() implies (#[trigger] after@[a]).0
                    != (#[trigger] after@[b]).0 by {
                    assert(old(self)@[a].0 != old(self)@[b].0);
                }
            }
        }
        self.entries = entries;
        previous
    }

    /// Puts `value` in place of the value at position `i` and hands back the
    /// value that stood there; the key stays.
    pub fn replace_at(&mut self, i: usize, value: Value) -> (previous: Value)
        requires
            i < old(self)@.len(),
        ensures
            final(self)@ == old(self)@.update(i as int, (old(self)@[i as int].0, value@)),
            distinct_keys(final(self)@),
            previous@ == old(self)@[i as int].1,
    {
        proof {
            use_type_invariant(&*self);
        }
        proof {
            self.lemma_entries();
        }
        let ghost new_value = value@;
        let mut entries: Vec<(String, Value)> = Vec::new();
        std::mem::swap(&mut self.entries, &mut entries);
        let mut value = value;
        let mut entry = entries.swap_remove(i);
        std::mem::swap(&mut entry.1, &mut value);
        entries.push(entry);
        let moved = entries.swap_remove(i);
        entries.push(moved);
        proof {
            let after = Table { entries };
            after.lemma_entries();
            assert(after@ =~= old(self)@.update(i as int, (old(self)@[i as int].0, new_value)));
            assert forall|a: int, b: int| 0 <= a < b < after@.len() implies (#[trigger] after@[a]).0
                != (#[trigger] after@[b]).0 by {
                assert(old(self)@[a].0 != old(self)@[b].0);
            }
        }
        self.entries = entries;
        let previous = value;
        previous
    }
}

fn array_equals(a: &Vec<Value>, b: &Vec<Value>) -> (r: bool)
    ensures
        r == ValueView::Array(views_of(a@)).equals(ValueView::Array(views_of(b@))),
    decreases a,
{
    if a.len() != b.len() {
        return false;
    }
    let mut i: usize = 0;
    while i < a.len()
        invariant
            i <= a@.len(),
            a@.len() == b@.len(),
            forall|k: int| 0 <= k < i ==> (#[trigger] views_of(a@)[k]).equals(views_of(b@)[k]),
        decreases a@.len() - i,
    {
        if !a[i].equals(&b[i]) {
            assert(!views_of(a@)[i as int].equals(views_of(b@)[i as int]));
            return false;
        }
        i += 1;
    }
    true
}

impl Table {
    /// Whether both tables hold the same keys with equal values; the order of
    /// the entries does not count.
    pub fn equals(&self, other: &Table) -> (r: bool)
        ensures
            r == ValueView::Table(self@).equals(ValueView::Table(other@)),
        decreases self,
    {
        proof {
            self.lemma_entries();
            other.lemma_entries();
        }
        if self.entries.len() != other.entries.len() {
            return false;
        }
        let mut i: usize = 0;
        while i < self.entries.len()
            invariant
                i <= self.entries@.len(),
                self@.len() == self.entries@.len(),
                other@.len() == other.entries@.len(),
                self@.len() == other@.len(),
                forall|k: int|
                    0 <= k < self.entries@.len() ==> #[trigger] self@[k] == (
                        self.entries@[k].0@,
                        self.entries@[k].1@,
                    ),
                forall|k: int|
                    0 <= k < other.entries@.len() ==> #[trigger] other@[k] == (
                        other.entries@[k].0@,
                        other.entries@[k].1@,
                    ),
                forall|k: int|
                    0 <= k < i ==> (#[trigger] self@[k]).1.stored_under(self@[k].0, other@),
            decreases self.entries@.len() - i,
        {
            match other.position(self.entries[i].0.as_str()) {
                None => {
                    assert(!self@[i as int].1.stored_under(self@[i as int].0, other@));
                    return false;
                },
                Some(j) => {
                    if !self.entries[i].1.equals(&other.entries[j].1) {
                        assert(!self@[i as int].1.stored_under(self@[i as int].0, other@)) by {
                            assert forall|m: int|
                                0 <= m < other@.len() && (#[trigger] other@[m]).0
                                    == self@[i as int].0 implies m == j by {
                                if m < j {
                                    assert(other@[m].0 != other@[j as int].0);
                                } else if j < m {
                                    assert(other@[j as int].0 != other@[m].0);
                                }
                            }
                        }
                        return false;
                    }
                    assert(self@[i as int].1.stored_under(self@[i as int].0, other@)) by {
                        assert(other@[j as int].0 == self@[i as int].0);
                    }
                },
            }
            i += 1;
        }
        true
    }
}

impl Value {
    /// Structural equality: see [`ValueView::equals`].
    pub fn equals(&self, other: &Value) -> (r: bool)
        ensures
            r == self@.equals(other@),
        decreases self,
    {
        match self {
            Value::Null => match other {
                Value::Null => true,
                _ => false,
            },
            Value::Boolean(x) => match other {
                Value::Boolean(y) => *x == *y,
                _ => false,
            },
            Value::Integer(x) => match other {
                Value::Integer(y) => *x == *y,
                _ => false,
            },
            Value::Float(x) => match other {
                Value::Float(y) => *x == *y,
                _ => false,
            },
            Value::String(x) => match other {
                Value::String(y) => x.as_str().eq(y.as_str()),
                _ => false,
            },
            Value::Array(x) => match other {
                Value::Array(y) => {
                    proof {
                        lemma_array_view(*x);
                        lemma_array_view(*y);
                    }
                    array_equals(x, y)
                },
                _ => false,
            },
            Value::Table(x) => match other {
                Value::Table(y) => x.equals(y),
                _ => false,
            },
        }
    }
}

impl PartialEq for Value {
    fn eq(&self, other: &Value) -> (r: bool) {
        self.equals(other)
    }
}

impl PartialEqSpecImpl for Value {
    open spec fn obeys_eq_spec() -> bool {
        true
    }

    open spec fn eq_spec(&self, other: &Value) -> bool {
        self@.equals(other@)
    }
}

impl PartialEq for Table {
    fn eq(&self, other: &Table) -> (r: bool) {
        self.equals(other)
    }
}

impl PartialEqSpecImpl for Table {
    open spec fn obeys_eq_spec() -> bool {
        true
    }

    open spec fn eq_spec(&self, other: &Table) -> bool {
        ValueView::Table(self@).equals(ValueView::Table(other@))
    }
}


fn clone_items(items: &Vec<Value>) -> (r: Vec<Value>)
    ensures
        views_of(r@) == views_of(items@),
    decreases items,
{
    let mut copy: Vec<Value> = Vec::new();
    let mut i: usize = 0;
    while i < items.len()
        invariant
            i <= items@.len(),
            copy@.len() == i,
            forall|k: int| 0 <= k < i ==> (#[trigger] copy@[k])@ == items@[k]@,
        decreases items@.len() - i,
    {
        copy.push(items[i].clone());
        i += 1;
    }
    assert(views_of(copy@) =~= views_of(items@));
    copy
}

impl Clone for Table {
    /// A deep copy: the same entries in the same order.
    fn clone(&self) -> (r: Table)
        ensures
            r@ == self@,
        decreases self,
    {
        proof {
            use_type_invariant(self);
            self.lemma_entries();
        }
        let mut entries: Vec<(String, Value)> = Vec::new();
        let mut i: usize = 0;
        while i < self.entries.len()
            invariant
                i <= self.entries@.len(),
                entries@.len() == i,
                forall|k: int|
                    0 <= k < i ==> (#[trigger] entries@[k]).0@ == self.entries@[k].0@
                        && entries@[k].1@ == self.entries@[k].1@,
            decreases self.entries@.len() - i,
        {
            entries.push((self.entries[i].0.clone(), self.entries[i].1.clone()));
            i += 1;
        }
        proof {
            let copy = Table { entries };
            copy.lemma_entries();
            assert(copy@ =~= self@);
        }
        Table { entries }
    }
}

impl Clone for Value {
    /// A deep copy of the tree.
    fn clone(&self) -> (r: Value)
        ensures
            r@ == self@,
        decreases self,
    {
        match self {
            Value::Null => Value::Null,
            Value::Boolean(b) => Value::Boolean(*b),
            Value::Integer(n) => Value::Integer(*n),
            Value::Float(bits) => Value::Float(*bits),
            Value::String(s) => Value::String(s.clone()),
            Value::Array(items) => {
                let copy = clone_items(items);
                proof {
                    lemma_array_view(*items);
                    lemma_array_view(copy);
                }
                Value::Array(copy)
            },
            Value::Table(t) => Value::Table(t.clone()),
        }
    }
}

impl Table {
    /// The table that results from inserting `entries` one after the other
    /// into an empty table: a key that occurs again overwrites the earlier
    /// value and keeps the earlier position.
    pub fn from_entries(entries: Vec<(String, Value)>) -> (t: Table)
        ensures
            t@ == collect_entries(pairs_of(entries@)),
    {
        let ghost all = pairs_of(entries@);
        let mut table = Table::new();
        for entry in it: entries
            invariant
                it.seq() == entries@,
                all == pairs_of(entries@),
                table@ == collect_entries(all.take(it.index() as int)),
        {
            proof {
                assert(all.take(it.index() + 1).drop_last() =~= all.take(it.index() as int));
            }
            table.insert(entry.0, entry.1);
        }
        assert(all.take(all.len() as int) =~= all);
        table
    }
}

impl From<bool> for Value {
    fn from(v: bool) -> (value: Value) {
        Value::Boolean(v)
    }
}

impl FromSpecImpl<bool> for Value {
    open spec fn obeys_from_spec() -> bool {
        true
    }

    open spec fn from_spec(v: bool) -> Value {
        Value::Boolean(v)
    }
}

impl From<i64> for Value {
    fn from(v: i64) -> (value: Value) {
        Value::Integer(v)
    }
}

impl FromSpecImpl<i64> for Value {
    open spec fn obeys_from_spec() -> bool {
        true
    }

    open spec fn from_spec(v: i64) -> Value {
        Value::Integer(v)
    }
}

impl From<String> for Value {
    fn from(v: String) -> (value: Value) {
        Value::String(v)
    }
}

impl FromSpecImpl<String> for Value {
    open spec fn obeys_from_spec() -> bool {
        true
    }

    open spec fn from_spec(v: String) -> Value {
        Value::String(v)
    }
}

impl From<Vec<Value>> for Value {
    fn from(v: Vec<Value>) -> (value: Value) {
        Value::Array(v)
    }
}

impl FromSpecImpl<Vec<Value>> for Value {
    open spec fn obeys_from_spec() -> bool {
        true
    }

    open spec fn from_spec(v: Vec<Value>) -> Value {
        Value::Array(v)
    }
}

impl From<Table> for Value {
    fn from(v: Table) -> (value: Value) {
        Value::Table(v)
    }
}

impl FromSpecImpl<Table> for Value {
    open spec fn obeys_from_spec() -> bool {
        true
    }

    open spec fn from_spec(v: Table) -> Value {
        Value::Table(v)
    }
}

} // verus!
