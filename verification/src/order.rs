//! The order of texts, and sorting by it.

use vstd::prelude::*;

use crate::text;

verus! {

/// Whether `a` comes before `b` or is equal to it, by the numbers of their characters.
pub open spec fn at_most(a: Seq<char>, b: Seq<char>) -> bool
    decreases a.len(),
{
    if a.len() == 0 {
        true
    } else if b.len() == 0 {
        false
    } else if a[0] == b[0] {
        at_most(a.skip(1), b.skip(1))
    } else {
        a[0] < b[0]
    }
}

/// Whether texts stand in order.
pub open spec fn in_order(s: Seq<Seq<char>>) -> bool {
    forall|i: int, j: int| 0 <= i <= j < s.len() ==> at_most(#[trigger] s[i], #[trigger] s[j])
}

/// Of two texts one is at most the other.
pub proof fn lemma_total(a: Seq<char>, b: Seq<char>)
    ensures
        at_most(a, b) || at_most(b, a),
    decreases a.len(),
{
    if a.len() > 0 && b.len() > 0 {
        lemma_total(a.skip(1), b.skip(1));
    }
}

/// Texts that are each at most the other are equal.
pub proof fn lemma_antisymmetric(a: Seq<char>, b: Seq<char>)
    requires
        at_most(a, b),
        at_most(b, a),
    ensures
        a == b,
    decreases a.len(),
{
    if a.len() > 0 && b.len() > 0 {
        lemma_antisymmetric(a.skip(1), b.skip(1));
        assert(a =~= seq![a[0]] + a.skip(1));
        assert(b =~= seq![b[0]] + b.skip(1));
    } else {
        assert(a =~= b);
    }
}

/// What is at most something that is at most a third is at most that.
pub proof fn lemma_transitive(a: Seq<char>, b: Seq<char>, c: Seq<char>)
    requires
        at_most(a, b),
        at_most(b, c),
    ensures
        at_most(a, c),
    decreases a.len(),
{
    if a.len() > 0 && b.len() > 0 && c.len() > 0 {
        if a[0] == b[0] && b[0] == c[0] {
            lemma_transitive(a.skip(1), b.skip(1), c.skip(1));
        }
    }
}

/// Whether `a` comes before `b` or is equal to it.
pub fn comes_first(a: &str, b: &str) -> (r: bool)
    ensures
        r == at_most(a@, b@),
{
    let x = text::to_chars(a);
    let y = text::to_chars(b);
    let mut i: usize = 0;
    proof {
        assert(a@.skip(0) =~= a@);
        assert(b@.skip(0) =~= b@);
    }
    while i < x.len() && i < y.len()
        invariant
            i <= x@.len(),
            i <= y@.len(),
            x@ == a@,
            y@ == b@,
            at_most(a@, b@) == at_most(a@.skip(i as int), b@.skip(i as int)),
        decreases x@.len() - i,
    {
        if x[i] != y[i] {
            return x[i] < y[i];
        }
        proof {
            assert(a@.skip(i as int).skip(1) =~= a@.skip(i + 1));
            assert(b@.skip(i as int).skip(1) =~= b@.skip(i + 1));
        }
        i += 1;
    }
    i == x.len()
}

/// Puts texts in order.
pub fn sort(names: Vec<String>) -> (r: Vec<String>)
    ensures
        in_order(text::texts(r@)),
        text::texts(r@).to_multiset() == text::texts(names@).to_multiset(),
{
    let mut out: Vec<String> = Vec::new();
    let ghost all = text::texts(names@);
    let mut i: usize = 0;
    proof {
        assert(text::texts(out@) =~= all.take(0));
    }
    while i < names.len()
        invariant
            i <= names@.len(),
            all == text::texts(names@),
            in_order(text::texts(out@)),
            text::texts(out@).to_multiset() == all.take(i as int).to_multiset(),
        decreases names@.len() - i,
    {
        proof {
            assert(all.take(i + 1) =~= all.take(i as int).push(all[i as int]));
            broadcast use vstd::seq_lib::group_to_multiset_ensures;
        }
        insert(&mut out, text::copy(names[i].as_str()));
        i += 1;
    }
    proof {
        assert(all.take(i as int) =~= all);
    }
    out
}

/// Puts a text among texts that stand in order, behind those that are at most it.
fn insert(list: &mut Vec<String>, name: String)
    requires
        in_order(text::texts(old(list)@)),
    ensures
        in_order(text::texts(final(list)@)),
        text::texts(final(list)@).to_multiset() == text::texts(old(list)@).to_multiset().insert(
            name@,
        ),
{
    let ghost before = text::texts(list@);
    let mut at: usize = list.len();
    while at > 0 && !comes_first(list[at - 1].as_str(), name.as_str())
        invariant
            at <= list@.len(),
            before == text::texts(list@),
            forall|j: int| at <= j < before.len() ==> at_most(name@, #[trigger] before[j]),
        decreases at,
    {
        at -= 1;
        proof {
            lemma_total(before[at as int], name@);
        }
    }
    list.insert(at, name);
    proof {
        let after = text::texts(list@);
        assert(after =~= before.insert(at as int, name@));
        assert forall|i: int, j: int| 0 <= i <= j < after.len() implies at_most(
            #[trigger] after[i],
            #[trigger] after[j],
        ) by {
            if i < at {
                lemma_total(after[i], after[i]);
                if j == at {
                    if i < at - 1 {
                        lemma_transitive(before[i], before[at - 1], name@);
                    }
                } else if j < at {
                    assert(at_most(before[i], before[j]));
                } else {
                    assert(at_most(before[i], before[j - 1]));
                }
            } else if i == at {
                lemma_total(name@, name@);
                if j > at {
                    assert(at_most(name@, before[j - 1]));
                }
            } else {
                assert(at_most(before[i - 1], before[j - 1]));
            }
        }
        vstd::seq_lib::to_multiset_insert(before, at as int, name@);
    }
}

/// There is one way only to put texts in order.
pub proof fn law_one_order_only(a: Seq<Seq<char>>, b: Seq<Seq<char>>)
    requires
        in_order(a),
        in_order(b),
        a.to_multiset() == b.to_multiset(),
    ensures
        a == b,
{
    let leq = |x: Seq<char>, y: Seq<char>| at_most(x, y);
    assert forall|x: Seq<char>, y: Seq<char>| #[trigger] leq(x, y) && #[trigger] leq(
        y,
        x,
    ) implies x == y by {
        lemma_antisymmetric(x, y);
    }
    assert forall|x: Seq<char>, y: Seq<char>, z: Seq<char>| #[trigger] leq(x, y) && #[trigger] leq(
        y,
        z,
    ) implies leq(x, z) by {
        lemma_transitive(x, y, z);
    }
    assert forall|x: Seq<char>, y: Seq<char>| #[trigger] leq(x, y) || leq(y, x) by {
        lemma_total(x, y);
    }
    assert forall|x: Seq<char>| #[trigger] leq(x, x) by {
        lemma_total(x, x);
    }
    vstd::seq_lib::lemma_sorted_unique(a, b, leq);
}

/// Texts are ordered by the first characters in which they differ, and a beginning stands before
/// the whole.
pub proof fn law_first_difference_decides(
    front: Seq<char>,
    a: char,
    b: char,
    x: Seq<char>,
    y: Seq<char>,
)
    ensures
        at_most(front, front + x),
        a < b ==> at_most(front + seq![a] + x, front + seq![b] + y),
        a < b ==> !at_most(front + seq![b] + y, front + seq![a] + x),
        x.len() > 0 ==> !at_most(front + x, front),
    decreases front.len(),
{
    let p = front + seq![a] + x;
    let q = front + seq![b] + y;
    let w = front + x;
    if front.len() > 0 {
        law_first_difference_decides(front.skip(1), a, b, x, y);
        assert(p.skip(1) =~= front.skip(1) + seq![a] + x);
        assert(q.skip(1) =~= front.skip(1) + seq![b] + y);
        assert(w.skip(1) =~= front.skip(1) + x);
        assert(p[0] == front[0] && q[0] == front[0] && w[0] == front[0]);
    } else {
        assert(p[0] == a);
        assert(q[0] == b);
    }
}

} // verus!
