//! Ordering of named records by name, as listings are presented.
use vstd::prelude::*;
use crate::text::{lex_less, lemma_lex_less_irreflexive, lemma_lex_less_transitive, str_less};

verus! {

/// A record that is ordered by a name.
pub trait Named {
    /// The name by which the record is ordered.
    spec fn name_view(&self) -> Seq<char>;

    /// The name by which the record is ordered.
    fn sort_name(&self) -> (n: &str)
        ensures
            n@ == self.name_view();
}

impl Named for (String, String) {
    open spec fn name_view(&self) -> Seq<char> {
        self.0@
    }

    fn sort_name(&self) -> (n: &str) {
        self.0.as_str()
    }
}

/// The records are in non-decreasing order of name.
pub open spec fn sorted_by_name<T: Named>(s: Seq<T>) -> bool {
    forall|i: int, j: int|
        0 <= i < j < s.len() ==> !lex_less(#[trigger] s[j].name_view(), #[trigger] s[i].name_view())
}

/// The position at which `x` goes into the sorted `r`: after every record
/// whose name is not greater than `x`'s.
fn insertion_index<T: Named>(r: &Vec<T>, x: &T) -> (p: usize)
    ensures
        p <= r@.len(),
        forall|k: int| 0 <= k < p ==> !lex_less(x.name_view(), #[trigger] r@[k].name_view()),
        p < r@.len() ==> lex_less(x.name_view(), r@[p as int].name_view()),
{
    let mut p: usize = 0;
    let xn = x.sort_name();
    while p < r.len()
        invariant
            p <= r@.len(),
            xn@ == x.name_view(),
            forall|k: int| 0 <= k < p ==> !lex_less(x.name_view(), #[trigger] r@[k].name_view()),
        decreases r.len() - p,
    {
        if str_less(xn, r[p].sort_name()) {
            return p;
        }
        p = p + 1;
    }
    p
}

/// Inserting `x` at its insertion index keeps `r` sorted.
proof fn lemma_insert_sorted<T: Named>(r: Seq<T>, x: T, p: int)
    requires
        sorted_by_name(r),
        0 <= p <= r.len(),
        forall|k: int| 0 <= k < p ==> !lex_less(x.name_view(), #[trigger] r[k].name_view()),
        p < r.len() ==> lex_less(x.name_view(), r[p].name_view()),
    ensures
        sorted_by_name(r.insert(p, x)),
{
    let s = r.insert(p, x);
    assert forall|i: int, j: int| 0 <= i < j < s.len() implies !lex_less(
        #[trigger] s[j].name_view(),
        #[trigger] s[i].name_view(),
    ) by {
        if i == p {
            let y = r[j - 1];
            assert(s[j] == y);
            if lex_less(y.name_view(), x.name_view()) {
                lemma_lex_less_transitive(y.name_view(), x.name_view(), r[p].name_view());
                if j - 1 == p {
                    lemma_lex_less_irreflexive(y.name_view());
                } else {
                    assert(!lex_less(r[j - 1].name_view(), r[p].name_view()));
                }
            }
        } else if j == p {
            assert(s[i] == r[i]);
        } else if i < p && j < p {
            assert(s[i] == r[i] && s[j] == r[j]);
        } else if i < p {
            assert(s[i] == r[i] && s[j] == r[j - 1]);
        } else {
            assert(s[i] == r[i - 1] && s[j] == r[j - 1]);
        }
    }
}

/// Inserting `x` anywhere adds it to the multiset of records.
proof fn lemma_insert_multiset<T>(r: Seq<T>, x: T, p: int)
    requires
        0 <= p <= r.len(),
    ensures
        r.insert(p, x).to_multiset() == r.to_multiset().insert(x),
{
    broadcast use vstd::seq_lib::group_to_multiset_ensures;
    let s = r.insert(p, x);
    assert(s.remove(p) =~= r);
    assert(s[p] == x);
    assert(s.to_multiset().count(x) > 0);
    assert(s.to_multiset().remove(x) == r.to_multiset());
    assert(s.to_multiset() =~= r.to_multiset().insert(x));
}

/// The records of `s` named `k`, in order.
pub open spec fn named<T: Named>(s: Seq<T>, k: Seq<char>) -> Seq<T>
    decreases s.len(),
{
    if s.len() == 0 {
        Seq::empty()
    } else if s.last().name_view() == k {
        named(s.drop_last(), k).push(s.last())
    } else {
        named(s.drop_last(), k)
    }
}

/// Picking the records named `k` distributes over concatenation.
proof fn lemma_named_concat<T: Named>(a: Seq<T>, b: Seq<T>, k: Seq<char>)
    ensures
        named(a + b, k) == named(a, k) + named(b, k),
    decreases b.len(),
{
    if b.len() == 0 {
        assert(a + b =~= a);
        assert(named(a, k) + Seq::<T>::empty() =~= named(a, k));
    } else {
        lemma_named_concat(a, b.drop_last(), k);
        assert((a + b).drop_last() =~= a + b.drop_last());
        assert((a + b).last() == b.last());
        if b.last().name_view() == k {
            assert(named(a, k) + named(b.drop_last(), k).push(b.last()) =~= (named(a, k) + named(
                b.drop_last(),
                k,
            )).push(b.last()));
        }
    }
}

/// No record of `s` named `k`: none is picked.
proof fn lemma_named_none<T: Named>(s: Seq<T>, k: Seq<char>)
    requires
        forall|j: int| 0 <= j < s.len() ==> #[trigger] s[j].name_view() != k,
    ensures
        named(s, k) == Seq::<T>::empty(),
    decreases s.len(),
{
    if s.len() > 0 {
        lemma_named_none(s.drop_last(), k);
    }
}

/// Inserting `x` at its insertion index into the sorted `r` places it after
/// every record of the same name.
proof fn lemma_insert_named<T: Named>(r: Seq<T>, x: T, p: int, k: Seq<char>)
    requires
        sorted_by_name(r),
        0 <= p <= r.len(),
        p < r.len() ==> lex_less(x.name_view(), r[p].name_view()),
    ensures
        named(r.insert(p, x), k) == if x.name_view() == k {
            named(r, k).push(x)
        } else {
            named(r, k)
        },
{
    let head = r.take(p);
    let tail = r.skip(p);
    assert(r =~= head + tail);
    assert(r.insert(p, x) =~= head.push(x) + tail);
    lemma_named_concat(head, tail, k);
    lemma_named_concat(head.push(x), tail, k);
    assert(head.push(x).drop_last() =~= head);
    assert forall|j: int| 0 <= j < tail.len() implies #[trigger] tail[j].name_view() != x.name_view() by {
        assert(tail[j] == r[p + j]);
        if j > 0 {
            assert(!lex_less(r[p + j].name_view(), r[p].name_view()));
        }
        if tail[j].name_view() == x.name_view() {
            if j > 0 {
                assert(lex_less(r[p + j].name_view(), r[p].name_view()));
            } else {
                lemma_lex_less_irreflexive(x.name_view());
            }
        }
    }
    if x.name_view() == k {
        lemma_named_none(tail, k);
        assert(named(head, k) + Seq::<T>::empty() =~= named(head, k));
        assert(named(head, k).push(x) + Seq::<T>::empty() =~= named(head, k).push(x));
    }
}

/// Sorts records by name; records with equal names keep their input order
/// (an insertion sort, stable like `sort_by`): the result is in order of
/// name, and for every name it holds the records of that name in the order
/// they came.
pub fn sort_by_name<T: Named>(items: Vec<T>) -> (r: Vec<T>)
    ensures
        sorted_by_name(r@),
        r@.to_multiset() == items@.to_multiset(),
        forall|k: Seq<char>| #[trigger] named(r@, k) == named(items@, k),
{
    broadcast use vstd::seq_lib::group_to_multiset_ensures;
    let mut r: Vec<T> = Vec::new();
    let mut rest = items;
    let ghost orig = rest@;
    assert(r@.to_multiset() =~= vstd::multiset::Multiset::empty());
    assert(r@.to_multiset().add(rest@.to_multiset()) =~= orig.to_multiset());
    let ghost mut done: int = 0;
    assert(orig.skip(0) =~= orig);
    assert forall|k: Seq<char>| #[trigger] named(r@, k) == named(orig.take(0), k) by {
        assert(orig.take(0) =~= Seq::<T>::empty());
    }
    while rest.len() > 0
        invariant
            sorted_by_name(r@),
            r@.to_multiset().add(rest@.to_multiset()) == orig.to_multiset(),
            0 <= done <= orig.len(),
            rest@ == orig.skip(done),
            forall|k: Seq<char>| #[trigger] named(r@, k) == named(orig.take(done), k),
        decreases rest.len(),
    {
        let ghost before = rest@;
        let ghost before_r = r@;
        let x = rest.remove(0);
        assert(orig[done] == x);
        assert(rest@ =~= orig.skip(done + 1));
        assert(orig.take(done + 1).drop_last() =~= orig.take(done));
        assert(orig.take(done + 1).last() == x);
        proof {
            assert(before =~= rest@.insert(0, x));
            lemma_insert_multiset(rest@, x, 0);
        }
        let p = insertion_index(&r, &x);
        proof {
            lemma_insert_sorted(r@, x, p as int);
            lemma_insert_multiset(r@, x, p as int);
        }
        let ghost old_r = r@;
        r.insert(p, x);
        assert(r@ == old_r.insert(p as int, x));
        assert(r@.to_multiset().add(rest@.to_multiset()) =~= orig.to_multiset());
        assert forall|k: Seq<char>| #[trigger] named(r@, k) == named(orig.take(done + 1), k) by {
            lemma_insert_named(old_r, x, p as int, k);
        }
        proof {
            done = done + 1;
        }
    }
    assert(orig.take(done) =~= orig);
    assert(rest@.to_multiset() =~= vstd::multiset::Multiset::empty());
    assert(r@.to_multiset() =~= orig.to_multiset());
    r
}

} // verus!
