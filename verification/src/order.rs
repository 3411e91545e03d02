//! The order of texts: by their characters' code points, from the first on.

use vstd::prelude::*;

use crate::text::chars_of;

verus! {

/// How one text stands to another.
#[derive(Clone, Copy, PartialEq, Eq, Structural)]
pub enum Order {
    Before,
    Same,
    After,
}

/// `a` comes before `b`.
pub open spec fn precedes(a: Seq<char>, b: Seq<char>) -> bool
    decreases a.len(),
{
    if b.len() == 0 {
        false
    } else if a.len() == 0 {
        true
    } else {
        a[0] < b[0] || (a[0] == b[0] && precedes(a.skip(1), b.skip(1)))
    }
}

/// Every text comes before each later one.
pub open spec fn increasing(list: Seq<Seq<char>>) -> bool {
    forall|i: int, j: int|
        0 <= i < j < list.len() ==> precedes(#[trigger] list[i], #[trigger] list[j])
}

/// No text comes before itself.
pub proof fn lemma_precedes_irreflexive(a: Seq<char>)
    ensures
        !precedes(a, a),
    decreases a.len(),
{
    if a.len() > 0 {
        lemma_precedes_irreflexive(a.skip(1));
    }
}

/// What comes before a text comes before all that follow it.
pub proof fn lemma_precedes_transitive(a: Seq<char>, b: Seq<char>, c: Seq<char>)
    requires
        precedes(a, b),
        precedes(b, c),
    ensures
        precedes(a, c),
    decreases a.len(),
{
    if a.len() > 0 && a[0] == b[0] && b[0] == c[0] {
        lemma_precedes_transitive(a.skip(1), b.skip(1), c.skip(1));
    }
}

/// Of two different texts one comes before the other.
pub proof fn lemma_precedes_total(a: Seq<char>, b: Seq<char>)
    ensures
        a == b || precedes(a, b) || precedes(b, a),
    decreases a.len(),
{
    if a.len() > 0 && b.len() > 0 {
        if a[0] == b[0] {
            lemma_precedes_total(a.skip(1), b.skip(1));
            if a.skip(1) == b.skip(1) {
                assert(a =~= seq![a[0]] + a.skip(1));
                assert(b =~= seq![b[0]] + b.skip(1));
            }
        }
    } else if a.len() == 0 && b.len() == 0 {
        assert(a =~= b);
    }
}

/// Of two texts that agree so far, the one whose next character is smaller, or that ends, comes
/// first.
pub proof fn lemma_precedes_at(a: Seq<char>, b: Seq<char>, k: int)
    requires
        0 <= k <= a.len(),
        k < b.len(),
        forall|i: int| 0 <= i < k ==> a[i] == b[i],
        k < a.len() ==> a[k] < b[k],
    ensures
        precedes(a, b),
    decreases k,
{
    if k > 0 {
        lemma_precedes_at(a.skip(1), b.skip(1), k - 1);
    }
}

/// A list is increasing where each text comes before the next.
pub proof fn lemma_increasing(list: Seq<Seq<char>>)
    requires
        forall|i: int| 0 <= i < list.len() - 1 ==> precedes(#[trigger] list[i], list[i + 1]),
    ensures
        increasing(list),
    decreases list.len(),
{
    if list.len() > 1 {
        let head = list.drop_last();
        let n = list.len() as int;
        assert forall|i: int| 0 <= i < head.len() - 1 implies precedes(
            #[trigger] head[i],
            head[i + 1],
        ) by {
            assert(precedes(list[i], list[i + 1]));
        }
        lemma_increasing(head);
        assert(precedes(list[n - 2], list[n - 1]));
        assert forall|i: int, j: int| 0 <= i < j < list.len() implies precedes(
            #[trigger] list[i],
            #[trigger] list[j],
        ) by {
            if j < n - 1 {
                assert(precedes(head[i], head[j]));
            } else if i < n - 2 {
                assert(precedes(head[i], head[n - 2]));
                lemma_precedes_transitive(list[i], list[n - 2], list[n - 1]);
            }
        }
    }
}

/// How `a` stands to `b`.
pub fn order_of(a: &str, b: &str) -> (order: Order)
    ensures
        order is Before <==> precedes(a@, b@),
        order is Same <==> a@ == b@,
        order is After <==> precedes(b@, a@),
{
    let left = chars_of(a);
    let right = chars_of(b);
    let n = left.len();
    let m = right.len();
    proof {
        assert(left@.skip(0) =~= a@);
        assert(right@.skip(0) =~= b@);
        lemma_precedes_irreflexive(a@);
        lemma_precedes_irreflexive(b@);
    }
    let mut i: usize = 0;
    while i < n && i < m && left[i] == right[i]
        invariant
            left@ == a@,
            right@ == b@,
            n == left@.len(),
            m == right@.len(),
            i <= n,
            i <= m,
            precedes(a@, b@) == precedes(a@.skip(i as int), b@.skip(i as int)),
            precedes(b@, a@) == precedes(b@.skip(i as int), a@.skip(i as int)),
            forall|k: int| 0 <= k < i ==> a@[k] == b@[k],
        decreases n - i,
    {
        proof {
            assert(a@.skip(i as int).skip(1) =~= a@.skip(i + 1));
            assert(b@.skip(i as int).skip(1) =~= b@.skip(i + 1));
        }
        i = i + 1;
    }
    if i < n && i < m {
        if left[i] < right[i] {
            Order::Before
        } else {
            Order::After
        }
    } else if i < m {
        Order::Before
    } else if i < n {
        Order::After
    } else {
        proof {
            assert(a@ =~= b@);
        }
        Order::Same
    }
}

} // verus!
