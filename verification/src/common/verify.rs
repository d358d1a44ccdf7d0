//! Parting what succeeded from what failed.
use vstd::prelude::*;

verus! {

/// The values of the results that succeeded, in their order.
pub open spec fn successes<I, E>(items: Seq<Result<I, E>>) -> Seq<I>
    decreases items.len(),
{
    if items.len() == 0 {
        Seq::empty()
    } else {
        match items.last() {
            Ok(value) => successes(items.drop_last()).push(value),
            Err(_) => successes(items.drop_last()),
        }
    }
}

/// The errors of the results that failed, in their order.
pub open spec fn failures<I, E>(items: Seq<Result<I, E>>) -> Seq<E>
    decreases items.len(),
{
    if items.len() == 0 {
        Seq::empty()
    } else {
        match items.last() {
            Ok(_) => failures(items.drop_last()),
            Err(error) => failures(items.drop_last()).push(error),
        }
    }
}

/// Parts results.
pub struct VerifiyItems;

impl VerifiyItems {
    /// The values of those that succeeded and the errors of those that failed, both in their order.
    pub fn verify<I, E>(items: Vec<Result<I, E>>) -> (r: (Vec<I>, Vec<E>))
        ensures
            r.0@ == successes(items@),
            r.1@ == failures(items@),
    {
        let mut good: Vec<I> = Vec::new();
        let mut bad: Vec<E> = Vec::new();
        let ghost all = items@;
        assert(all.take(0) =~= Seq::<Result<I, E>>::empty());
        for item in it: items
            invariant
                it.seq() == all,
                good@ == successes(all.take(it.index())),
                bad@ == failures(all.take(it.index())),
        {
            assert(all.take(it.index() + 1).drop_last() =~= all.take(it.index()));
            match item {
                Ok(value) => {
                    good.push(value);
                },
                Err(error) => {
                    bad.push(error);
                },
            }
        }
        assert(all.take(all.len() as int) =~= all);
        (good, bad)
    }
}

/// Every result is a success or a failure.
pub proof fn law_verify_parts<I, E>(items: Seq<Result<I, E>>)
    ensures
        successes(items).len() + failures(items).len() == items.len(),
        failures(items).len() == 0 <==> forall|i: int| 0 <= i < items.len() ==> items[i] is Ok,
    decreases items.len(),
{
    if items.len() > 0 {
        let shorter = items.drop_last();
        law_verify_parts(shorter);
        if failures(items).len() == 0 {
            assert forall|i: int| 0 <= i < items.len() implies items[i] is Ok by {
                if i < shorter.len() {
                    assert(shorter[i] is Ok);
                }
            }
        } else if items.last() is Ok {
            assert(!(forall|i: int| 0 <= i < shorter.len() ==> shorter[i] is Ok));
            let i = choose|i: int| 0 <= i < shorter.len() && !(shorter[i] is Ok);
            assert(items[i] == shorter[i]);
        } else {
            assert(items[items.len() - 1] is Err);
        }
    }
}

/// Parting two lists of results one after the other parts the one and then the other, and a result alone
/// is a success or a failure.
pub proof fn law_verify_of_both<I, E>(first: Seq<Result<I, E>>, second: Seq<Result<I, E>>)
    ensures
        successes(first + second) == successes(first) + successes(second),
        failures(first + second) == failures(first) + failures(second),
    decreases second.len(),
{
    if second.len() == 0 {
        assert(first + second =~= first);
        assert(successes(first) + successes(second) =~= successes(first));
        assert(failures(first) + failures(second) =~= failures(first));
    } else {
        law_verify_of_both(first, second.drop_last());
        assert((first + second).drop_last() =~= first + second.drop_last());
        assert((first + second).last() == second.last());
        assert(successes(first + second) =~= successes(first) + successes(second));
        assert(failures(first + second) =~= failures(first) + failures(second));
    }
}

/// A result alone is a success with its value, or a failure with its error.
pub proof fn law_verify_of_one<I, E>(value: I, error: E)
    ensures
        successes(seq![Ok::<I, E>(value)]) == seq![value],
        failures(seq![Ok::<I, E>(value)]).len() == 0,
        successes(seq![Err::<I, E>(error)]).len() == 0,
        failures(seq![Err::<I, E>(error)]) == seq![error],
{
    let good = seq![Ok::<I, E>(value)];
    let bad = seq![Err::<I, E>(error)];
    assert(good.drop_last() =~= Seq::empty());
    assert(bad.drop_last() =~= Seq::empty());
    assert(successes(good.drop_last()) =~= Seq::<I>::empty());
    assert(failures(good.drop_last()) =~= Seq::<E>::empty());
    assert(successes(bad.drop_last()) =~= Seq::<I>::empty());
    assert(failures(bad.drop_last()) =~= Seq::<E>::empty());
    assert(successes(good) =~= seq![value]);
    assert(failures(bad) =~= seq![error]);
}

} // verus!
