//! Gathering the results of work done side by side.

use vstd::prelude::*;

verus! {

/// The values of the successful results, in order.
pub open spec fn oks<T, E>(results: Seq<Result<T, E>>) -> Seq<T>
    decreases results.len(),
{
    if results.len() == 0 {
        Seq::empty()
    } else {
        match results.last() {
            Ok(v) => oks(results.drop_last()).push(v),
            Err(_) => oks(results.drop_last()),
        }
    }
}

/// The errors of the failed results, in order.
pub open spec fn errs<T, E>(results: Seq<Result<T, E>>) -> Seq<E>
    decreases results.len(),
{
    if results.len() == 0 {
        Seq::empty()
    } else {
        match results.last() {
            Ok(_) => errs(results.drop_last()),
            Err(e) => errs(results.drop_last()).push(e),
        }
    }
}

/// All the values when every result succeeded, else all the errors.
pub fn join_errors<T, E>(results: Vec<Result<T, E>>) -> (r: Result<Vec<T>, Vec<E>>)
    ensures
        errs(results@).len() == 0 ==> (r matches Ok(v) && v@ == oks(results@)),
        errs(results@).len() > 0 ==> (r matches Err(es) && es@ == errs(results@)),
{
    let ghost all = results@;
    let mut rest = results;
    let mut values: Vec<T> = Vec::new();
    let mut errors: Vec<E> = Vec::new();
    let mut i: usize = 0;
    let n = rest.len();
    while i < n
        invariant
            n == all.len(),
            i <= n,
            rest@ == all.skip(i as int),
            values@ == oks(all.take(i as int)),
            errors@ == errs(all.take(i as int)),
        decreases n - i,
    {
        let x = rest.remove(0);
        proof {
            assert(all.take(i as int + 1).drop_last() =~= all.take(i as int));
            assert(x == all[i as int]);
            assert(rest@ =~= all.skip(i as int + 1));
        }
        match x {
            Ok(v) => values.push(v),
            Err(e) => errors.push(e),
        }
        i = i + 1;
    }
    assert(all.take(i as int) =~= all);
    if errors.len() == 0 {
        Ok(values)
    } else {
        Err(errors)
    }
}

} // verus!
