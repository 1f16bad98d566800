//! Steps taken in order, where the first failure ends the run.

use vstd::prelude::*;

verus! {

/// The values of `results` in order if every one is `Ok`; else the first
/// error among them.
pub open spec fn collect<T, E>(results: Seq<Result<T, E>>) -> Result<Seq<T>, E>
    decreases results.len(),
{
    if results.len() == 0 {
        Ok(Seq::empty())
    } else {
        match collect(results.drop_last()) {
            Err(error) => Err(error),
            Ok(values) => match results.last() {
                Ok(value) => Ok(values.push(value)),
                Err(error) => Err(error),
            },
        }
    }
}

/// What a run puts out when step `i` puts out `outputs[i]` and ends in
/// `results[i]`: the outputs of the steps up to and including the first
/// that fails, one after the other.
pub open spec fn emitted<T, E, W>(results: Seq<Result<T, E>>, outputs: Seq<Seq<W>>) -> Seq<W>
    recommends
        results.len() == outputs.len(),
    decreases results.len(),
{
    if results.len() == 0 {
        Seq::empty()
    } else if collect(results.drop_last()) is Ok {
        emitted(results.drop_last(), outputs.drop_last()) + outputs.last()
    } else {
        emitted(results.drop_last(), outputs.drop_last())
    }
}

/// The run of the first `k + 1` steps, from the run of the first `k`.
pub proof fn lemma_collect_step<T, E>(results: Seq<Result<T, E>>, k: int)
    requires
        0 <= k < results.len(),
    ensures
        collect(results.take(k + 1)) == match collect(results.take(k)) {
            Err(error) => Err::<Seq<T>, E>(error),
            Ok(values) => match results[k] {
                Ok(value) => Ok(values.push(value)),
                Err(error) => Err(error),
            },
        },
{
    assert(results.take(k + 1).drop_last() =~= results.take(k));
}

/// A run that has failed within its first `k` steps keeps its error.
pub proof fn lemma_collect_failed<T, E>(results: Seq<Result<T, E>>, k: int)
    requires
        0 <= k <= results.len(),
        collect(results.take(k)) is Err,
    ensures
        collect(results) == collect(results.take(k)),
    decreases results.len() - k,
{
    if k == results.len() {
        assert(results.take(k) =~= results);
    } else {
        lemma_collect_step(results, k);
        lemma_collect_failed(results, k + 1);
    }
}

/// What the first `k + 1` steps put out, from what the first `k` did.
pub proof fn lemma_emitted_step<T, E, W>(
    results: Seq<Result<T, E>>,
    outputs: Seq<Seq<W>>,
    k: int,
)
    requires
        0 <= k < results.len(),
        results.len() == outputs.len(),
    ensures
        emitted(results.take(k + 1), outputs.take(k + 1)) == if collect(results.take(k)) is Ok {
            emitted(results.take(k), outputs.take(k)) + outputs[k]
        } else {
            emitted(results.take(k), outputs.take(k))
        },
{
    assert(results.take(k + 1).drop_last() =~= results.take(k));
    assert(outputs.take(k + 1).drop_last() =~= outputs.take(k));
}

/// A run that has failed within its first `k` steps puts out no more.
pub proof fn lemma_emitted_failed<T, E, W>(
    results: Seq<Result<T, E>>,
    outputs: Seq<Seq<W>>,
    k: int,
)
    requires
        0 <= k <= results.len(),
        results.len() == outputs.len(),
        collect(results.take(k)) is Err,
    ensures
        emitted(results, outputs) == emitted(results.take(k), outputs.take(k)),
    decreases results.len() - k,
{
    if k == results.len() {
        assert(results.take(k) =~= results);
        assert(outputs.take(k) =~= outputs);
    } else {
        lemma_collect_step(results, k);
        lemma_emitted_step(results, outputs, k);
        lemma_emitted_failed(results, outputs, k + 1);
    }
}

/// `collect` succeeds exactly when every step does, and then holds the
/// value of each step in its place.
pub proof fn lemma_collect_ok<T, E>(results: Seq<Result<T, E>>)
    ensures
        collect(results) is Ok <==> forall|i: int| 0 <= i < results.len() ==> results[i] is Ok,
        collect(results) matches Ok(values) ==> {
            &&& values.len() == results.len()
            &&& forall|i: int| 0 <= i < results.len() ==> results[i] == Ok::<T, E>(values[i])
        },
    decreases results.len(),
{
    if results.len() > 0 {
        lemma_collect_ok(results.drop_last());
        if collect(results) is Ok {
            let values = collect(results)->Ok_0;
            let before = collect(results.drop_last())->Ok_0;
            assert(values == before.push(results.last()->Ok_0));
            assert forall|i: int| 0 <= i < results.len() implies results[i] == Ok::<T, E>(
                values[i],
            ) by {
                if i < results.len() - 1 {
                    assert(results.drop_last()[i] == Ok::<T, E>(before[i]));
                }
            }
        } else if collect(results.drop_last()) is Ok {
            assert(results[results.len() - 1] is Err);
        } else {
            let i = choose|i: int| 0 <= i < results.len() - 1 && !(results.drop_last()[i] is Ok);
            assert(!(results[i] is Ok));
        }
    }
}

/// When `collect` fails, its error is that of the first step that failed.
pub proof fn lemma_collect_err<T, E>(results: Seq<Result<T, E>>) -> (k: int)
    requires
        collect(results) is Err,
    ensures
        0 <= k < results.len(),
        results[k] is Err,
        results[k]->Err_0 == collect(results)->Err_0,
        forall|i: int| 0 <= i < k ==> results[i] is Ok,
    decreases results.len(),
{
    if collect(results.drop_last()) is Err {
        let k = lemma_collect_err(results.drop_last());
        assert forall|i: int| 0 <= i < k implies results[i] is Ok by {
            assert(results.drop_last()[i] is Ok);
        }
        k
    } else {
        lemma_collect_ok(results.drop_last());
        assert forall|i: int| 0 <= i < results.len() - 1 implies results[i] is Ok by {
            assert(results.drop_last()[i] is Ok);
        }
        results.len() - 1
    }
}

/// The first failure decides: if step `k` fails and no step before it
/// does, `collect` gives the error of step `k`.
pub proof fn lemma_collect_first_err<T, E>(results: Seq<Result<T, E>>, k: int)
    requires
        0 <= k < results.len(),
        results[k] is Err,
        forall|i: int| 0 <= i < k ==> results[i] is Ok,
    ensures
        collect(results) == Err::<Seq<T>, E>(results[k]->Err_0),
{
    lemma_collect_ok(results);
    let first = lemma_collect_err(results);
    assert(first == k);
}

/// A run in two parts: the second part counts only if the first succeeds.
pub proof fn lemma_collect_concat<T, E>(first: Seq<Result<T, E>>, second: Seq<Result<T, E>>)
    ensures
        collect(first + second) == match collect(first) {
            Err(error) => Err::<Seq<T>, E>(error),
            Ok(values) => match collect(second) {
                Ok(more) => Ok(values + more),
                Err(error) => Err(error),
            },
        },
    decreases second.len(),
{
    if second.len() == 0 {
        assert(first + second =~= first);
        if collect(first) is Ok {
            assert(collect(first)->Ok_0 + Seq::<T>::empty() =~= collect(first)->Ok_0);
        }
    } else {
        assert((first + second).drop_last() =~= first + second.drop_last());
        lemma_collect_concat(first, second.drop_last());
        if collect(first) is Ok && collect(second) is Ok {
            let values = collect(first)->Ok_0;
            let more = collect(second.drop_last())->Ok_0;
            let value = second.last()->Ok_0;
            assert((values + more).push(value) =~= values + more.push(value));
        }
    }
}

/// Two runs whose steps succeed and fail alike, with the same errors,
/// succeed or fail alike, with the same error.
pub proof fn lemma_collect_same_failures<T, U, E>(
    first: Seq<Result<T, E>>,
    second: Seq<Result<U, E>>,
)
    requires
        first.len() == second.len(),
        forall|i: int|
            0 <= i < first.len() ==> match #[trigger] first[i] {
                Ok(_) => second[i] is Ok,
                Err(error) => second[i] == Err::<U, E>(error),
            },
    ensures
        match collect(first) {
            Ok(_) => collect(second) is Ok,
            Err(error) => collect(second) == Err::<Seq<U>, E>(error),
        },
{
    lemma_collect_ok(first);
    lemma_collect_ok(second);
    if collect(first) is Ok {
        assert forall|i: int| 0 <= i < second.len() implies second[i] is Ok by {
            assert(first[i] is Ok);
        }
    } else {
        let k = lemma_collect_err(first);
        assert(first[k] is Err);
        assert forall|i: int| 0 <= i < k implies second[i] is Ok by {
            assert(first[i] is Ok);
        }
        lemma_collect_first_err(second, k);
    }
}

} // verus!
