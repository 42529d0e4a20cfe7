//! Stable ordering of a sequence under a rule that says which of two items
//! has to stand first.

use vstd::prelude::*;

verus! {

/// A rule that says of two items whether the first has to stand before the
/// second. Items of which neither has to stand before the other keep the
/// order in which they came.
pub trait Order<T> {
    /// `a` has to stand before `b`.
    spec fn before(&self, a: &T, b: &T) -> bool;

    /// Decides `before` for two items.
    fn is_before(&self, a: &T, b: &T) -> (yes: bool)
        ensures
            yes == self.before(a, b),
    ;
}

/// `s` with `x` put in behind every item that it does not have to stand before:
/// `x` moves forward from the end for as long as it has to stand before its
/// left neighbour.
pub open spec fn inserted<T, O: Order<T>>(order: &O, s: Seq<T>, x: T) -> Seq<T>
    decreases s.len(),
{
    if s.len() > 0 && order.before(&x, &s.last()) {
        inserted(order, s.drop_last(), x).push(s.last())
    } else {
        s.push(x)
    }
}

/// The items of `s` arranged by `order`, one after the other put into what
/// has been arranged of those before it.
pub open spec fn arranged<T, O: Order<T>>(order: &O, s: Seq<T>) -> Seq<T>
    decreases s.len(),
{
    if s.len() == 0 {
        s
    } else {
        inserted(order, arranged(order, s.drop_last()), s.last())
    }
}

/// As `inserted`, for a rule that is given as a relation.
pub open spec fn inserted_by<T>(before: spec_fn(T, T) -> bool, s: Seq<T>, x: T) -> Seq<T>
    decreases s.len(),
{
    if s.len() > 0 && before(x, s.last()) {
        inserted_by(before, s.drop_last(), x).push(s.last())
    } else {
        s.push(x)
    }
}

/// As `arranged`, for a rule that is given as a relation.
pub open spec fn arranged_by<T>(before: spec_fn(T, T) -> bool, s: Seq<T>) -> Seq<T>
    decreases s.len(),
{
    if s.len() == 0 {
        s
    } else {
        inserted_by(before, arranged_by(before, s.drop_last()), s.last())
    }
}

/// Putting an item in and then looking at every item through `f` gives what
/// putting it in by `before` among what `f` shows gives, where the rule goes
/// by what `f` shows.
pub proof fn lemma_inserted_mapped<T, U, O: Order<T>>(
    order: &O,
    s: Seq<T>,
    x: T,
    f: spec_fn(T) -> U,
    before: spec_fn(U, U) -> bool,
)
    requires
        forall|a: T, b: T| #[trigger] order.before(&a, &b) == before(f(a), f(b)),
    ensures
        inserted(order, s, x).map_values(f) == inserted_by(before, s.map_values(f), f(x)),
    decreases s.len(),
{
    if s.len() > 0 && order.before(&x, &s.last()) {
        lemma_inserted_mapped(order, s.drop_last(), x, f, before);
        assert(s.map_values(f).drop_last() =~= s.drop_last().map_values(f));
        assert(inserted(order, s, x).map_values(f) =~= inserted(
            order,
            s.drop_last(),
            x,
        ).map_values(f).push(f(s.last())));
    } else {
        assert(s.push(x).map_values(f) =~= s.map_values(f).push(f(x)));
    }
}

/// Arranging and then looking at every item through `f` gives what arranging
/// by `before` what `f` shows gives, where the rule goes by what `f` shows.
pub proof fn lemma_arranged_mapped<T, U, O: Order<T>>(
    order: &O,
    s: Seq<T>,
    f: spec_fn(T) -> U,
    before: spec_fn(U, U) -> bool,
)
    requires
        forall|a: T, b: T| #[trigger] order.before(&a, &b) == before(f(a), f(b)),
    ensures
        arranged(order, s).map_values(f) == arranged_by(before, s.map_values(f)),
    decreases s.len(),
{
    if s.len() == 0 {
        assert(s.map_values(f) =~= Seq::<U>::empty());
        assert(arranged(order, s).map_values(f) =~= Seq::<U>::empty());
    } else {
        lemma_arranged_mapped(order, s.drop_last(), f, before);
        lemma_inserted_mapped(order, arranged(order, s.drop_last()), s.last(), f, before);
        assert(s.map_values(f).drop_last() =~= s.drop_last().map_values(f));
    }
}

/// Where `x` comes to stand when it is put into `s`: behind the first `at`
/// items, given that it has to stand before each of the others and not before
/// the one at `at - 1`.
proof fn lemma_inserted_at<T, O: Order<T>>(order: &O, s: Seq<T>, x: T, at: int)
    requires
        0 <= at <= s.len(),
        forall|k: int| at <= k < s.len() ==> order.before(&x, &#[trigger] s[k]),
        at > 0 ==> !order.before(&x, &s[at - 1]),
    ensures
        inserted(order, s, x) == s.insert(at, x),
    decreases s.len(),
{
    if at == s.len() {
        assert(s.insert(at, x) =~= s.push(x));
    } else {
        lemma_inserted_at(order, s.drop_last(), x, at);
        assert(s.drop_last().insert(at, x).push(s.last()) =~= s.insert(at, x));
    }
}

/// Putting an item in makes the sequence longer by one.
pub proof fn lemma_inserted_len<T, O: Order<T>>(order: &O, s: Seq<T>, x: T)
    ensures
        inserted(order, s, x).len() == s.len() + 1,
    decreases s.len(),
{
    if s.len() > 0 && order.before(&x, &s.last()) {
        lemma_inserted_len(order, s.drop_last(), x);
    }
}

/// Arranging keeps the number of items.
pub proof fn lemma_arranged_len<T, O: Order<T>>(order: &O, s: Seq<T>)
    ensures
        arranged(order, s).len() == s.len(),
    decreases s.len(),
{
    if s.len() > 0 {
        lemma_arranged_len(order, s.drop_last());
        lemma_inserted_len(order, arranged(order, s.drop_last()), s.last());
    }
}

/// Putting an item in adds that item and nothing else.
pub proof fn lemma_inserted_permutes<T, O: Order<T>>(order: &O, s: Seq<T>, x: T)
    ensures
        inserted(order, s, x).to_multiset() == s.to_multiset().insert(x),
    decreases s.len(),
{
    broadcast use vstd::seq_lib::group_to_multiset_ensures;

    if s.len() > 0 && order.before(&x, &s.last()) {
        lemma_inserted_permutes(order, s.drop_last(), x);
        assert(s =~= s.drop_last().push(s.last()));
        assert(inserted(order, s, x).to_multiset() =~= s.to_multiset().insert(x));
    }
}

/// What is arranged holds the items that were given, each as often as it
/// was given.
pub proof fn lemma_arranged_permutes<T, O: Order<T>>(order: &O, s: Seq<T>)
    ensures
        arranged(order, s).to_multiset() == s.to_multiset(),
    decreases s.len(),
{
    broadcast use vstd::seq_lib::group_to_multiset_ensures;

    if s.len() > 0 {
        lemma_arranged_permutes(order, s.drop_last());
        lemma_inserted_permutes(order, arranged(order, s.drop_last()), s.last());
        assert(s =~= s.drop_last().push(s.last()));
    }
}

/// The rule ranks its items: of two items at most one has to stand before the
/// other, and an item that need not stand before a second, which need not
/// stand before a third, need not stand before the third.
pub open spec fn ranks<T, O: Order<T>>(order: &O) -> bool {
    &&& forall|a: T, b: T| #[trigger] order.before(&a, &b) ==> !order.before(&b, &a)
    &&& forall|a: T, b: T, c: T|
        #![trigger order.before(&a, &b), order.before(&b, &c)]
        !order.before(&a, &b) && !order.before(&b, &c) ==> !order.before(&a, &c)
}

/// No item of `s` stands behind one that it has to stand before.
pub open spec fn in_order<T, O: Order<T>>(order: &O, s: Seq<T>) -> bool {
    forall|i: int, j: int| 0 <= i < j < s.len() ==> !order.before(&s[j], &s[i])
}

/// Putting an item into a sequence that is in order leaves it in order.
pub proof fn lemma_inserted_in_order<T, O: Order<T>>(order: &O, s: Seq<T>, x: T)
    requires
        ranks(order),
        in_order(order, s),
    ensures
        in_order(order, inserted(order, s, x)),
    decreases s.len(),
{
    broadcast use vstd::seq_lib::group_to_multiset_ensures;

    let out = inserted(order, s, x);
    if s.len() > 0 && order.before(&x, &s.last()) {
        let front = s.drop_last();
        let most = inserted(order, front, x);
        lemma_inserted_in_order(order, front, x);
        lemma_inserted_permutes(order, front, x);
        lemma_inserted_len(order, front, x);
        assert forall|i: int, j: int| 0 <= i < j < out.len() implies !order.before(
            &out[j],
            &out[i],
        ) by {
            if j < most.len() {
                assert(out[i] == most[i] && out[j] == most[j]);
            } else {
                assert(out[j] == s.last());
                assert(out[i] == most[i]);
                assert(most.to_multiset().count(most[i]) > 0);
                if most[i] != x {
                    assert(front.to_multiset().count(most[i]) > 0);
                    assert(front.contains(most[i]));
                    let k = choose|k: int| 0 <= k < front.len() && front[k] == most[i];
                    assert(s[k] == most[i]);
                    assert(!order.before(&s[s.len() - 1], &s[k]));
                }
            }
        }
    } else {
        assert forall|i: int, j: int| 0 <= i < j < out.len() implies !order.before(
            &out[j],
            &out[i],
        ) by {
            if j < s.len() {
                assert(out[i] == s[i] && out[j] == s[j]);
            } else {
                assert(out[j] == x && out[i] == s[i]);
                assert(!order.before(&x, &s.last()));
                if i < s.len() - 1 {
                    assert(!order.before(&s[s.len() - 1], &s[i]));
                }
            }
        }
    }
}

/// What is arranged by a rule that ranks is in order.
pub proof fn lemma_arranged_in_order<T, O: Order<T>>(order: &O, s: Seq<T>)
    requires
        ranks(order),
    ensures
        in_order(order, arranged(order, s)),
    decreases s.len(),
{
    if s.len() > 0 {
        lemma_arranged_in_order(order, s.drop_last());
        lemma_inserted_in_order(order, arranged(order, s.drop_last()), s.last());
    }
}

/// No item of the kind `kind` has to stand before another of that kind.
pub open spec fn tied<T, O: Order<T>>(order: &O, kind: spec_fn(T) -> bool) -> bool {
    forall|a: T, b: T| kind(a) && kind(b) ==> !#[trigger] order.before(&a, &b)
}

/// Putting an item in does not move it past an item of its own kind.
pub proof fn lemma_inserted_stable<T, O: Order<T>>(
    order: &O,
    s: Seq<T>,
    x: T,
    kind: spec_fn(T) -> bool,
)
    requires
        tied(order, kind),
    ensures
        inserted(order, s, x).filter(kind) == s.push(x).filter(kind),
    decreases s.len(),
{
    if s.len() > 0 && order.before(&x, &s.last()) {
        let front = s.drop_last();
        lemma_inserted_stable(order, front, x, kind);
        assert(s =~= front.push(s.last()));
        inserted(order, front, x).lemma_filter_push(s.last(), kind);
        front.lemma_filter_push(x, kind);
        front.lemma_filter_push(s.last(), kind);
        s.lemma_filter_push(x, kind);
    }
}

/// Arranging is stable: items of which none has to stand before another keep
/// the order in which they were given.
pub proof fn lemma_arranged_stable<T, O: Order<T>>(order: &O, s: Seq<T>, kind: spec_fn(T) -> bool)
    requires
        tied(order, kind),
    ensures
        arranged(order, s).filter(kind) == s.filter(kind),
    decreases s.len(),
{
    if s.len() > 0 {
        let front = s.drop_last();
        lemma_arranged_stable(order, front, kind);
        lemma_inserted_stable(order, arranged(order, front), s.last(), kind);
        assert(s =~= front.push(s.last()));
        arranged(order, front).lemma_filter_push(s.last(), kind);
        front.lemma_filter_push(s.last(), kind);
    }
}

/// Arranges `items` by `order`, stably.
pub fn sort<T, O: Order<T>>(items: Vec<T>, order: &O) -> (out: Vec<T>)
    ensures
        out@ == arranged(order, items@),
{
    let mut out: Vec<T> = Vec::new();
    let ghost all = items@;
    for x in it: items
        invariant
            it.seq() == all,
            out@ == arranged(order, all.take(it.index())),
    {
        let mut at: usize = out.len();
        while at > 0 && order.is_before(&x, &out[at - 1])
            invariant
                at <= out.len(),
                forall|k: int| at <= k < out.len() ==> order.before(&x, &#[trigger] out@[k]),
            decreases at,
        {
            at -= 1;
        }
        proof {
            lemma_inserted_at(order, out@, x, at as int);
            assert(all.take(it.index() + 1).drop_last() =~= all.take(it.index()));
        }
        out.insert(at, x);
    }
    assert(all.take(all.len() as int) =~= all);
    out
}


/// The items of `items`, the last first.
pub fn reversed<T>(items: Vec<T>) -> (out: Vec<T>)
    ensures
        out@ == items@.reverse(),
{
    let ghost all = items@;
    let mut rest = items;
    let mut out: Vec<T> = Vec::new();
    while rest.len() > 0
        invariant
            rest@ == all.take(rest.len() as int),
            out.len() + rest.len() == all.len(),
            forall|k: int| 0 <= k < out.len() ==> out@[k] == all[all.len() - 1 - k],
        decreases rest.len(),
    {
        let x = rest.pop().unwrap();
        out.push(x);
    }
    assert(out@ =~= all.reverse());
    out
}

} // verus!
