//! Ordering names by their code points, and sorting them.

use vstd::prelude::*;
use crate::text::chars_of;

verus! {

/// Whether `a` stands at or before `b` in the lexicographic order of code
/// points: a text stands before each of its extensions, and otherwise the
/// first place where two texts differ decides.
pub open spec fn precedes(a: Seq<char>, b: Seq<char>) -> bool
    decreases a.len(),
{
    if a.len() == 0 {
        true
    } else if b.len() == 0 {
        false
    } else if a[0] != b[0] {
        (a[0] as int) < (b[0] as int)
    } else {
        precedes(a.drop_first(), b.drop_first())
    }
}

/// Whether each name stands at or before all that follow it.
pub open spec fn is_sorted(names: Seq<Seq<char>>) -> bool {
    forall|i: int, j: int| 0 <= i <= j < names.len() ==> precedes(names[i], names[j])
}

/// Whether `sorted` holds the names of `names`, each as often as `names`
/// does, in ascending order.
pub open spec fn is_sorting_of(sorted: Seq<Seq<char>>, names: Seq<Seq<char>>) -> bool {
    &&& is_sorted(sorted)
    &&& sorted.to_multiset() == names.to_multiset()
}

/// Every text stands at or before itself.
pub proof fn lemma_precedes_reflexive(a: Seq<char>)
    ensures
        precedes(a, a),
    decreases a.len(),
{
    if a.len() > 0 {
        lemma_precedes_reflexive(a.drop_first());
    }
}

/// Of two texts one stands at or before the other.
pub proof fn lemma_precedes_total(a: Seq<char>, b: Seq<char>)
    ensures
        precedes(a, b) || precedes(b, a),
    decreases a.len(),
{
    if a.len() > 0 && b.len() > 0 {
        if a[0] == b[0] {
            lemma_precedes_total(a.drop_first(), b.drop_first());
        }
    }
}

/// Two texts that stand at or before each other are the same text.
pub proof fn lemma_precedes_antisymmetric(a: Seq<char>, b: Seq<char>)
    requires
        precedes(a, b),
        precedes(b, a),
    ensures
        a == b,
    decreases a.len(),
{
    if a.len() == 0 || b.len() == 0 {
    } else {
        lemma_precedes_antisymmetric(a.drop_first(), b.drop_first());
        assert(a =~= seq![a[0]] + a.drop_first());
    }
}

/// The order is transitive.
pub proof fn lemma_precedes_transitive(a: Seq<char>, b: Seq<char>, c: Seq<char>)
    requires
        precedes(a, b),
        precedes(b, c),
    ensures
        precedes(a, c),
    decreases a.len(),
{
    if a.len() > 0 && b.len() > 0 && c.len() > 0 && a[0] == b[0] && b[0] == c[0] {
        lemma_precedes_transitive(a.drop_first(), b.drop_first(), c.drop_first());
    }
}

/// Two sortings of the same names are the same sequence: the order leaves
/// no choice.
pub proof fn lemma_sorting_is_unique(x: Seq<Seq<char>>, y: Seq<Seq<char>>)
    requires
        is_sorted(x),
        is_sorted(y),
        x.to_multiset() == y.to_multiset(),
    ensures
        x == y,
    decreases x.len(),
{
    broadcast use vstd::seq_lib::group_to_multiset_ensures;

    x.to_multiset_ensures();
    y.to_multiset_ensures();
    if x.len() > 0 {
        let a = x[0];
        let b = y[0];
        assert(y.to_multiset().count(a) > 0);
        assert(x.to_multiset().count(b) > 0);
        lemma_precedes_antisymmetric(a, b);
        let xs = x.remove(0);
        let ys = y.remove(0);
        vstd::seq_lib::to_multiset_remove(x, 0);
        vstd::seq_lib::to_multiset_remove(y, 0);
        lemma_sorting_is_unique(xs, ys);
        assert(x =~= seq![a] + xs);
    }
}

/// The number of a character in Unicode.
fn code_point(c: char) -> (n: u32)
    ensures
        n == c as int,
{
    c as u32
}

/// Whether `a` stands at or before `b` in the order of code points.
pub fn comes_before(a: &str, b: &str) -> (r: bool)
    ensures
        r == precedes(a@, b@),
{
    let x = chars_of(a);
    let y = chars_of(b);
    let mut i: usize = 0;
    assert(x@.skip(0) =~= x@);
    assert(y@.skip(0) =~= y@);
    while i < x.len() && i < y.len()
        invariant
            x@ == a@,
            y@ == b@,
            i <= x.len(),
            i <= y.len(),
            precedes(a@, b@) == precedes(x@.skip(i as int), y@.skip(i as int)),
        decreases x.len() - i,
    {
        let ghost xs = x@.skip(i as int);
        let ghost ys = y@.skip(i as int);
        let cx: char = x[i];
        let cy: char = y[i];
        if cx != cy {
            return code_point(cx) < code_point(cy);
        }
        assert(xs.drop_first() =~= x@.skip(i + 1));
        assert(ys.drop_first() =~= y@.skip(i + 1));
        i += 1;
    }
    i == x.len()
}

/// Sorts names into ascending order of code points. Names that occur more
/// than once stay as often as they were.
pub fn sort_names(names: Vec<String>) -> (sorted: Vec<String>)
    ensures
        is_sorting_of(sorted.deep_view(), names.deep_view()),
{
    broadcast use vstd::seq_lib::group_to_multiset_ensures;

    let ghost all = names.deep_view();
    let mut rest = names;
    let mut sorted: Vec<String> = Vec::new();
    while rest.len() > 0
        invariant
            is_sorted(sorted.deep_view()),
            sorted.deep_view().to_multiset().add(rest.deep_view().to_multiset())
                == all.to_multiset(),
        decreases rest.len(),
    {
        let ghost before = rest.deep_view();
        let ghost done = sorted.deep_view();
        let name = rest.pop().unwrap();
        assert(before =~= rest.deep_view().push(name@));
        proof {
            vstd::seq_lib::to_multiset_build(rest.deep_view(), name@);
        }
        let mut at: usize = 0;
        while at < sorted.len() && comes_before(sorted[at].as_str(), name.as_str())
            invariant
                at <= sorted.len(),
                done == sorted.deep_view(),
                forall|k: int| 0 <= k < at ==> precedes(#[trigger] done[k], name@),
            decreases sorted.len() - at,
        {
            at += 1;
        }
        sorted.insert(at, name);
        proof {
            let next = sorted.deep_view();
            assert(next =~= done.insert(at as int, name@));
            assert(next.remove(at as int) =~= done);
            vstd::seq_lib::to_multiset_remove(next, at as int);
            next.to_multiset_ensures();
            assert forall|i: int, j: int| 0 <= i <= j < next.len() implies precedes(
                next[i],
                next[j],
            ) by {
                if i == j {
                    lemma_precedes_reflexive(next[i]);
                } else if j < at {
                } else if j == at {
                } else if i < at {
                } else if i == at {
                    lemma_precedes_total(done[at as int], name@);
                    lemma_precedes_transitive(name@, done[at as int], done[j - 1]);
                }
            }
        }
    }
    assert(sorted.deep_view().to_multiset() =~= all.to_multiset());
    sorted
}

} // verus!
