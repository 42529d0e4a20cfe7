//! The outcome of a batch of independent operations, none of which stops
//! the others.

use vstd::prelude::*;
use validated::Validated;

verus! {

/// What a batch of operations leaves behind: what each success gave, and a
/// token for each failure.
#[derive(Debug)]
pub struct BatchOutcome<T, E> {
    pub successes: Vec<T>,
    pub failures: Vec<E>,
}

/// What a result holds if it is a success.
pub open spec fn success_of<T, E>(r: Result<T, E>) -> Option<T> {
    match r {
        Ok(t) => Some(t),
        Err(_) => None,
    }
}

/// What a result holds if it is a failure.
pub open spec fn failure_of<T, E>(r: Result<T, E>) -> Option<E> {
    match r {
        Ok(_) => None,
        Err(e) => Some(e),
    }
}

/// What the successes among `results` gave, in their order.
pub open spec fn successes_of<T, E>(results: Seq<Result<T, E>>) -> Seq<T> {
    results.filter_map(|r: Result<T, E>| success_of(r))
}

/// The tokens of the failures among `results`, in their order.
pub open spec fn failures_of<T, E>(results: Seq<Result<T, E>>) -> Seq<E> {
    results.filter_map(|r: Result<T, E>| failure_of(r))
}

/// Each result is counted once: as a success or as a failure.
pub proof fn lemma_every_result_counted<T, E>(results: Seq<Result<T, E>>)
    ensures
        successes_of(results).len() + failures_of(results).len() == results.len(),
    decreases results.len(),
{
    if results.len() > 0 {
        lemma_every_result_counted(results.drop_last());
    }
}

/// The item that a result speaks of, whether it went well or not.
pub open spec fn token_of<T>(r: Result<T, T>) -> T {
    match r {
        Ok(t) => t,
        Err(e) => e,
    }
}

/// What stands among the successes is what some result holds as a success,
/// and so for the failures.
pub proof fn lemma_outcome_members<T, E>(results: Seq<Result<T, E>>, t: T, e: E)
    ensures
        successes_of(results).contains(t) <==> results.contains(Ok(t)),
        failures_of(results).contains(e) <==> results.contains(Err(e)),
    decreases results.len(),
{
    if results.len() > 0 {
        let front = results.drop_last();
        lemma_outcome_members(front, t, e);
        assert(results =~= front.push(results.last()));
        assert(forall|x: Result<T, E>|
            results.contains(x) <==> front.contains(x) || x == results.last()) by {
            assert forall|x: Result<T, E>| front.contains(x) implies results.contains(x) by {
                let i = choose|i: int| 0 <= i < front.len() && front[i] == x;
                assert(results[i] == x);
            }
            assert(results[results.len() - 1] == results.last());
            assert forall|x: Result<T, E>| results.contains(x) && x != results.last() implies front.contains(x) by {
                let i = choose|i: int| 0 <= i < results.len() && results[i] == x;
                assert(front[i] == x);
            }
        }
        let good = successes_of(front);
        let bad = failures_of(front);
        match results.last() {
            Ok(last) => {
                assert(successes_of(results) == good.push(last));
                assert(good.push(last)[good.len() as int] == last);
                if good.contains(t) {
                    let i = choose|i: int| 0 <= i < good.len() && good[i] == t;
                    assert(good.push(last)[i] == t);
                }
            },
            Err(last) => {
                assert(failures_of(results) == bad.push(last));
                assert(bad.push(last)[bad.len() as int] == last);
                if bad.contains(e) {
                    let i = choose|i: int| 0 <= i < bad.len() && bad[i] == e;
                    assert(bad.push(last)[i] == e);
                }
            },
        }
    }
}

/// The outcome of a batch does not depend on the order in which its
/// operations end. Let the operation fail on the items in `fails`, which are
/// among `items`, and on no others, and let `results` hold one result for each
/// of `items`, in any order. Then the successes are, as a set, the items
/// without `fails`, and the failures are `fails`.
pub proof fn lemma_outcome_sets<T>(items: Seq<T>, fails: Set<T>, results: Seq<Result<T, T>>)
    requires
        results.map_values(|r: Result<T, T>| token_of(r)).to_multiset() == items.to_multiset(),
        forall|i: int|
            0 <= i < results.len() ==> ((#[trigger] results[i]) is Err <==> fails.contains(
                token_of(results[i]),
            )),
        fails.subset_of(items.to_set()),
    ensures
        successes_of(results).to_set() == items.to_set().difference(fails),
        failures_of(results).to_set() == fails,
{
    broadcast use vstd::seq_lib::group_to_multiset_ensures;

    let tokens = results.map_values(|r: Result<T, T>| token_of(r));
    assert forall|x: T| items.contains(x) <==> tokens.contains(x) by {
        assert(items.to_multiset().count(x) == tokens.to_multiset().count(x));
    }
    assert forall|x: T|
        successes_of(results).to_set().contains(x) <==> items.to_set().difference(fails).contains(
            x,
        ) by {
        lemma_outcome_members(results, x, x);
        if results.contains(Ok(x)) {
            let i = choose|i: int| 0 <= i < results.len() && results[i] == Ok::<T, T>(x);
            assert(tokens[i] == x);
        }
        if items.contains(x) && !fails.contains(x) {
            let i = choose|i: int| 0 <= i < tokens.len() && tokens[i] == x;
            assert(results[i] is Ok);
            assert(results[i] == Ok::<T, T>(x));
        }
    }
    assert forall|x: T| failures_of(results).to_set().contains(x) <==> fails.contains(x) by {
        lemma_outcome_members(results, x, x);
        if results.contains(Err(x)) {
            let i = choose|i: int| 0 <= i < results.len() && results[i] == Err::<T, T>(x);
            assert(tokens[i] == x);
        }
        if fails.contains(x) {
            assert(items.contains(x));
            let i = choose|i: int| 0 <= i < tokens.len() && tokens[i] == x;
            assert(results[i] is Err);
            assert(results[i] == Err::<T, T>(x));
        }
    }
    assert(successes_of(results).to_set() =~= items.to_set().difference(fails));
    assert(failures_of(results).to_set() =~= fails);
}

/// Parts the results of a batch into successes and failures. No result is
/// dropped, and a failure does not hide the results that stand behind it.
pub fn gather<T, E>(results: Vec<Result<T, E>>) -> (outcome: BatchOutcome<T, E>)
    ensures
        outcome.successes@ == successes_of(results@),
        outcome.failures@ == failures_of(results@),
        outcome.successes.len() + outcome.failures.len() == results.len(),
{
    let ghost all = results@;
    let mut successes: Vec<T> = Vec::new();
    let mut failures: Vec<E> = Vec::new();
    for r in it: results
        invariant
            it.seq() == all,
            successes@ == successes_of(all.take(it.index())),
            failures@ == failures_of(all.take(it.index())),
    {
        proof {
            assert(all.take(it.index() + 1).drop_last() =~= all.take(it.index()));
        }
        match r {
            Ok(t) => {
                successes.push(t);
            },
            Err(e) => {
                failures.push(e);
            },
        }
    }
    proof {
        assert(all.take(all.len() as int) =~= all);
        lemma_every_result_counted(all);
    }
    BatchOutcome { successes, failures }
}

/// Collects the results into a `Validated`, by its `FromIterator` for
/// `Result`s, and hands it back as a `Result`: `Good` with what the successes
/// gave where nothing failed, else `Fail` with the token of every failure, in
/// the order of the results.
#[verifier::external_body]
pub(crate) fn validate<T, E>(results: Vec<Result<T, E>>) -> (out: Result<Vec<T>, Vec<E>>)
    ensures
        out is Ok <==> failures_of(results@).len() == 0,
        out matches Ok(good) ==> good@ == successes_of(results@),
        out matches Err(bad) ==> bad@ == failures_of(results@),
{
    let collected: Validated<Vec<T>, E> = results.into_iter().collect();
    match collected {
        Validated::Good(good) => Ok(good),
        Validated::Fail(bad) => Err(bad.into()),
    }
}

} // verus!
