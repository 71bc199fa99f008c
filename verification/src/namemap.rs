//! A map from names to values, kept as a list of entries with distinct
//! names (a later insertion under a name replaces the earlier value).
use vstd::prelude::*;

use crate::text::str_equal;

verus! {

/// No two entries share a name.
pub open spec fn distinct_names<V>(rows: Seq<(Seq<char>, V)>) -> bool {
    forall|i: int, j: int| 0 <= i < j < rows.len() ==> #[trigger] rows[i].0 != #[trigger] rows[j].0
}

/// Some entry has name `k`.
pub open spec fn names_contain<V>(rows: Seq<(Seq<char>, V)>, k: Seq<char>) -> bool {
    exists|i: int| 0 <= i < rows.len() && #[trigger] rows[i].0 == k
}

/// An index of an entry named `k` (meaningful when there is one).
pub open spec fn name_index<V>(rows: Seq<(Seq<char>, V)>, k: Seq<char>) -> int {
    choose|i: int| 0 <= i < rows.len() && #[trigger] rows[i].0 == k
}

/// The value stored under `k`, if any.
pub open spec fn value_of<V>(rows: Seq<(Seq<char>, V)>, k: Seq<char>) -> Option<V> {
    if names_contain(rows, k) {
        Some(rows[name_index(rows, k)].1)
    } else {
        None
    }
}

/// The entries as a map from name to value.
pub open spec fn map_of<V>(rows: Seq<(Seq<char>, V)>) -> Map<Seq<char>, V> {
    Map::new(|k: Seq<char>| names_contain(rows, k), |k: Seq<char>| value_of(rows, k).unwrap())
}

/// With distinct names, the map has one key per entry.
pub proof fn lemma_map_len<V>(rows: Seq<(Seq<char>, V)>)
    requires
        distinct_names(rows),
    ensures
        map_of(rows).len() == rows.len(),
        map_of(rows).dom().finite(),
    decreases rows.len(),
{
    let m = map_of(rows);
    if rows.len() == 0 {
        assert(m.dom() =~= Set::<Seq<char>>::empty());
    } else {
        let init = rows.drop_last();
        assert(distinct_names(init)) by {
            assert forall|i: int, j: int| 0 <= i < j < init.len() implies #[trigger] init[i].0 != #[trigger] init[j].0 by {
                assert(init[i] == rows[i] && init[j] == rows[j]);
            }
        }
        lemma_map_len(init);
        let k = rows.last().0;
        assert(!names_contain(init, k)) by {
            if names_contain(init, k) {
                let i = name_index(init, k);
                assert(rows[i].0 == k);
            }
        }
        assert(m.dom() =~= map_of(init).dom().insert(k)) by {
            assert forall|x: Seq<char>| m.dom().contains(x) <==> map_of(init).dom().contains(x) || x == k by {
                if names_contain(rows, x) {
                    let i = name_index(rows, x);
                    if i < rows.len() - 1 {
                        assert(init[i].0 == x);
                    }
                }
                if names_contain(init, x) {
                    let i = name_index(init, x);
                    assert(rows[i].0 == x);
                }
                if x == k {
                    assert(rows[rows.len() - 1].0 == x);
                }
            }
        }
    }
}

/// With distinct names, the value stored under an entry's name is that
/// entry's value.
pub proof fn lemma_value_of_at<V>(rows: Seq<(Seq<char>, V)>, i: int)
    requires
        distinct_names(rows),
        0 <= i < rows.len(),
    ensures
        value_of(rows, rows[i].0) == Some(rows[i].1),
{
    let k = rows[i].0;
    assert(names_contain(rows, k));
    let j = name_index(rows, k);
    if j < i {
        assert(rows[j].0 != rows[i].0);
    } else if i < j {
        assert(rows[i].0 != rows[j].0);
    }
}

/// Names mapped to values.
pub struct NameMap<V> {
    entries: Vec<(String, V)>,
}

impl<V> NameMap<V> {
    /// The entries as (name, value) pairs.
    pub closed spec fn rows(&self) -> Seq<(Seq<char>, V)> {
        self.entries@.map_values(|e: (String, V)| (e.0@, e.1))
    }

    /// No two entries share a name.
    pub open spec fn wf(&self) -> bool {
        distinct_names(self.rows())
    }

    /// The entries as a map from name to value.
    pub open spec fn map(&self) -> Map<Seq<char>, V> {
        map_of(self.rows())
    }

    /// An empty map.
    pub fn new() -> (m: Self)
        ensures
            m.wf(),
            m.rows() == Seq::<(Seq<char>, V)>::empty(),
    {
        let m = NameMap { entries: Vec::new() };
        assert(m.rows() =~= Seq::<(Seq<char>, V)>::empty());
        m
    }

    /// Number of entries.
    pub fn len(&self) -> (n: usize)
        ensures
            n == self.rows().len(),
    {
        self.entries.len()
    }

    /// The index of the entry named `key`, if any.
    fn position(&self, key: &str) -> (res: Option<usize>)
        ensures
            res matches Some(i) ==> i < self.rows().len() && self.rows()[i as int].0 == key@,
            res is None ==> !names_contain(self.rows(), key@),
    {
        let mut i: usize = 0;
        while i < self.entries.len()
            invariant
                i <= self.entries@.len(),
                self.entries@.len() == self.rows().len(),
                forall|t: int| 0 <= t < i ==> #[trigger] self.rows()[t].0 != key@,
            decreases self.entries.len() - i,
        {
            if str_equal(self.entries[i].0.as_str(), key) {
                return Some(i);
            }
            i = i + 1;
        }
        None
    }

    /// Whether some entry is named `key`.
    pub fn contains(&self, key: &str) -> (b: bool)
        ensures
            b == names_contain(self.rows(), key@),
    {
        self.position(key).is_some()
    }

    /// The value stored under `key`, if any.
    pub fn get(&self, key: &str) -> (res: Option<&V>)
        requires
            self.wf(),
        ensures
            res matches Some(v) ==> value_of(self.rows(), key@) == Some(*v),
            res is None ==> value_of(self.rows(), key@) is None,
            res matches Some(v) ==> self.map().contains_key(key@) && self.map()[key@] == *v,
            res is None ==> !self.map().contains_key(key@),
    {
        match self.position(key) {
            Some(i) => {
                proof {
                    lemma_value_of_at(self.rows(), i as int);
                }
                Some(&self.entries[i].1)
            },
            None => None,
        }
    }

    /// The value at position `i`, in insertion order.
    pub fn value_at(&self, i: usize) -> (v: &V)
        requires
            i < self.rows().len(),
        ensures
            *v == self.rows()[i as int].1,
    {
        &self.entries[i].1
    }

    /// The name at position `i`, in insertion order.
    pub fn name_at(&self, i: usize) -> (k: &str)
        requires
            i < self.rows().len(),
        ensures
            k@ == self.rows()[i as int].0,
    {
        self.entries[i].0.as_str()
    }

    /// Store `value` under `key`, replacing the value already stored there.
    pub fn insert(&mut self, key: String, value: V)
        requires
            old(self).wf(),
        ensures
            final(self).wf(),
            value_of(final(self).rows(), key@) == Some(value),
            forall|k: Seq<char>| k != key@ ==> value_of(#[trigger] final(self).rows(), k) == value_of(
                old(self).rows(),
                k,
            ),
            forall|k: Seq<char>| #[trigger] names_contain(final(self).rows(), k) <==> (names_contain(
                old(self).rows(),
                k,
            ) || k == key@),
            final(self).map() == old(self).map().insert(key@, value),
    {
        let ghost old_rows = self.rows();
        let ghost row = (key@, value);
        match self.position(key.as_str()) {
            Some(i) => {
                self.entries.set(i, (key, value));
                proof {
                    assert(self.rows() =~= old_rows.update(i as int, row));
                    lemma_rows_update(old_rows, i as int, row);
                    assert(self.map() =~= map_of(old_rows).insert(key@, value));
                }
            },
            None => {
                self.entries.push((key, value));
                proof {
                    assert(self.rows() =~= old_rows.push(row));
                    lemma_rows_push(old_rows, row);
                    assert(self.map() =~= map_of(old_rows).insert(key@, value));
                }
            },
        }
    }
}

proof fn lemma_rows_update<V>(old_rows: Seq<(Seq<char>, V)>, i: int, row: (Seq<char>, V))
    requires
        distinct_names(old_rows),
        0 <= i < old_rows.len(),
        old_rows[i].0 == row.0,
    ensures
        distinct_names(old_rows.update(i, row)),
        value_of(old_rows.update(i, row), row.0) == Some(row.1),
        forall|k: Seq<char>| k != row.0 ==> value_of(#[trigger] old_rows.update(i, row), k) == value_of(old_rows, k),
        forall|k: Seq<char>| #[trigger] names_contain(old_rows.update(i, row), k) <==> (names_contain(old_rows, k) || k == row.0),
{
    let rows = old_rows.update(i, row);
    assert(distinct_names(rows)) by {
        assert forall|a: int, b: int| 0 <= a < b < rows.len() implies #[trigger] rows[a].0 != #[trigger] rows[b].0 by {
            assert(rows[a].0 == old_rows[a].0 && rows[b].0 == old_rows[b].0);
        }
    }
    lemma_value_of_at(rows, i);
    assert forall|k: Seq<char>| k != row.0 implies value_of(#[trigger] old_rows.update(i, row), k) == value_of(old_rows, k) by {
        if names_contain(old_rows, k) {
            let j = name_index(old_rows, k);
            lemma_value_of_at(old_rows, j);
            lemma_value_of_at(rows, j);
        } else if names_contain(rows, k) {
            let j = name_index(rows, k);
            assert(old_rows[j].0 == k);
        }
    }
    assert forall|k: Seq<char>| #[trigger] names_contain(old_rows.update(i, row), k) <==> (names_contain(old_rows, k) || k == row.0) by {
        if names_contain(old_rows, k) {
            let j = name_index(old_rows, k);
            assert(rows[j].0 == k);
        }
        if names_contain(rows, k) {
            let j = name_index(rows, k);
            assert(old_rows[j].0 == k);
        }
        if k == row.0 {
            assert(rows[i].0 == k);
        }
    }
}

proof fn lemma_rows_push<V>(old_rows: Seq<(Seq<char>, V)>, row: (Seq<char>, V))
    requires
        distinct_names(old_rows),
        !names_contain(old_rows, row.0),
    ensures
        distinct_names(old_rows.push(row)),
        value_of(old_rows.push(row), row.0) == Some(row.1),
        forall|k: Seq<char>| k != row.0 ==> value_of(#[trigger] old_rows.push(row), k) == value_of(old_rows, k),
        forall|k: Seq<char>| #[trigger] names_contain(old_rows.push(row), k) <==> (names_contain(old_rows, k) || k == row.0),
{
    let rows = old_rows.push(row);
    let n = old_rows.len() as int;
    assert(distinct_names(rows)) by {
        assert forall|a: int, b: int| 0 <= a < b < rows.len() implies #[trigger] rows[a].0 != #[trigger] rows[b].0 by {
            if b == n {
                assert(rows[a].0 == old_rows[a].0);
            } else {
                assert(rows[a].0 == old_rows[a].0 && rows[b].0 == old_rows[b].0);
            }
        }
    }
    lemma_value_of_at(rows, n);
    assert forall|k: Seq<char>| k != row.0 implies value_of(#[trigger] old_rows.push(row), k) == value_of(old_rows, k) by {
        if names_contain(old_rows, k) {
            let j = name_index(old_rows, k);
            lemma_value_of_at(old_rows, j);
            lemma_value_of_at(rows, j);
        } else if names_contain(rows, k) {
            let j = name_index(rows, k);
            assert(old_rows[j].0 == k);
        }
    }
    assert forall|k: Seq<char>| #[trigger] names_contain(old_rows.push(row), k) <==> (names_contain(old_rows, k) || k == row.0) by {
        if names_contain(old_rows, k) {
            let j = name_index(old_rows, k);
            assert(rows[j].0 == k);
        }
        if names_contain(rows, k) {
            let j = name_index(rows, k);
            if j < n {
                assert(old_rows[j].0 == k);
            }
        }
        if k == row.0 {
            assert(rows[n].0 == k);
        }
    }
}

} // verus!
