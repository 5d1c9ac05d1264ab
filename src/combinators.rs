//! Small helpers over optional values and results.

use vstd::prelude::*;
use vstd::std_specs::ops::{AddSpec, MulSpec};
use std::ops::{Add, Mul};

verus! {

/// Adds two optional values: present on both sides gives the sum, present on
/// one side gives that value unchanged, absent on both stays absent.
pub fn add_options<T>(a: Option<T>, b: Option<T>) -> (r: Option<T>) where T: Add<T, Output = T>
    requires
        a is Some && b is Some ==> a.unwrap().add_req(b.unwrap()),
    ensures
        a is Some && b is Some ==> r is Some && (T::obeys_add_spec() ==> r == Some(
            a.unwrap().add_spec(b.unwrap()),
        )),
        a is Some && b is None ==> r == a,
        a is None ==> r == b,
{
    match (a, b) {
        (Some(a), Some(b)) => Some(a + b),
        (Some(v), None) => Some(v),
        (None, v) => v,
    }
}

/// Multiplies two optional values; absent on either side gives absent.
pub fn product_or_none<T>(acc: Option<T>, next: Option<T>) -> (r: Option<T>) where
    T: Mul<T, Output = T>,

    requires
        acc is Some && next is Some ==> acc.unwrap().mul_req(next.unwrap()),
    ensures
        r is Some <==> acc is Some && next is Some,
        r is Some && T::obeys_mul_spec() ==> r == Some(acc.unwrap().mul_spec(next.unwrap())),
{
    match (acc, next) {
        (Some(a), Some(n)) => Some(a * n),
        _ => None,
    }
}

/// Adds two optional values; absent on either side gives absent.
pub fn sum_or_none<T>(acc: Option<T>, next: Option<T>) -> (r: Option<T>) where
    T: Add<T, Output = T>,

    requires
        acc is Some && next is Some ==> acc.unwrap().add_req(next.unwrap()),
    ensures
        r is Some <==> acc is Some && next is Some,
        r is Some && T::obeys_add_spec() ==> r == Some(acc.unwrap().add_spec(next.unwrap())),
{
    match (acc, next) {
        (Some(a), Some(n)) => Some(a + n),
        _ => None,
    }
}

/// The `Ok` values of `s`, in order.
pub open spec fn oks<T, E>(s: Seq<Result<T, E>>) -> Seq<T>
    decreases s.len(),
{
    if s.len() == 0 {
        Seq::empty()
    } else {
        match s.last() {
            Ok(v) => oks(s.drop_last()).push(v),
            Err(_) => oks(s.drop_last()),
        }
    }
}

/// The `Err` values of `s`, in order.
pub open spec fn errs<T, E>(s: Seq<Result<T, E>>) -> Seq<E>
    decreases s.len(),
{
    if s.len() == 0 {
        Seq::empty()
    } else {
        match s.last() {
            Ok(_) => errs(s.drop_last()),
            Err(e) => errs(s.drop_last()).push(e),
        }
    }
}

/// Where every result succeeded, the successes are all of them, in order,
/// and there are no failures.
pub proof fn lemma_all_ok<T, E>(s: Seq<Result<T, E>>)
    requires
        forall|k: int| 0 <= k < s.len() ==> (#[trigger] s[k]) is Ok,
    ensures
        oks(s).len() == s.len(),
        errs(s).len() == 0,
        forall|k: int| 0 <= k < s.len() ==> s[k] == Ok::<T, E>(#[trigger] oks(s)[k]),
    decreases s.len(),
{
    if s.len() > 0 {
        lemma_all_ok(s.drop_last());
        assert forall|k: int| 0 <= k < s.len() implies s[k] == Ok::<T, E>(#[trigger] oks(s)[k]) by {
            if k < s.len() - 1 {
                assert(s.drop_last()[k] == s[k]);
            }
        }
    }
}

/// Each failure comes from some result, and there is none exactly where
/// every result succeeded.
pub proof fn lemma_errs_from<T, E>(s: Seq<Result<T, E>>)
    ensures
        errs(s).len() == 0 <==> forall|k: int| 0 <= k < s.len() ==> (#[trigger] s[k]) is Ok,
        forall|j: int|
            0 <= j < errs(s).len() ==> exists|k: int|
                0 <= k < s.len() && s[k] == Err::<T, E>(#[trigger] errs(s)[j]),
    decreases s.len(),
{
    if s.len() > 0 {
        let d = s.drop_last();
        lemma_errs_from(d);
        assert forall|k: int| 0 <= k < d.len() implies d[k] == s[k] by {}
        assert forall|j: int| 0 <= j < errs(s).len() implies exists|k: int|
            0 <= k < s.len() && s[k] == Err::<T, E>(#[trigger] errs(s)[j]) by {
            if j < errs(d).len() {
                let k = choose|k: int| 0 <= k < d.len() && d[k] == Err::<T, E>(#[trigger] errs(d)[j]);
                assert(s[k] == d[k]);
            } else {
                assert(s[s.len() - 1] == Err::<T, E>(errs(s)[j]));
            }
        }
        if errs(s).len() == 0 {
            assert(s.last() is Ok);
            assert forall|k: int| 0 <= k < s.len() implies (#[trigger] s[k]) is Ok by {
                if k < s.len() - 1 {
                    assert(d[k] == s[k]);
                }
            }
        }
        if forall|k: int| 0 <= k < s.len() ==> (#[trigger] s[k]) is Ok {
            assert(s[s.len() - 1] is Ok);
            assert forall|k: int| 0 <= k < d.len() implies (#[trigger] d[k]) is Ok by {
                assert(s[k] is Ok);
            }
        }
    }
}

/// Splits results into the successes and the failures, each in order.
pub fn partition_results<T, E>(results: Vec<Result<T, E>>) -> (r: (Vec<T>, Vec<E>))
    ensures
        r.0@ == oks(results@),
        r.1@ == errs(results@),
{
    let ghost all = results@;
    let n: usize = results.len();
    let mut results = results;
    let mut ok_values: Vec<T> = Vec::new();
    let mut err_values: Vec<E> = Vec::new();
    let mut i: usize = 0;
    assert(all.skip(0) =~= all);
    while results.len() > 0
        invariant
            all.len() == n,
            i <= n,
            results@ == all.skip(i as int),
            ok_values@ == oks(all.take(i as int)),
            err_values@ == errs(all.take(i as int)),
        decreases results@.len(),
    {
        let next = results.remove(0);
        assert(results@ =~= all.skip(i as int + 1));
        assert(all.take(i as int + 1).drop_last() =~= all.take(i as int));
        match next {
            Ok(v) => ok_values.push(v),
            Err(e) => err_values.push(e),
        }
        i = i + 1;
    }
    assert(all.take(i as int) =~= all);
    (ok_values, err_values)
}

} // verus!
