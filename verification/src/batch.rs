//! Collecting the answers of a batched request.
//!
//! A batch of `n` requests must come back as `n` answers. The transport
//! hands us, per slot, either nothing, or an answer, or a failure; the
//! collector surfaces the first failure, and a short batch is a distinct
//! error of its own — never silently truncated.

use vstd::prelude::*;

use crate::errors::{BitcoindError, TransportError};

verus! {

/// The successful answers of a batch, in order.
pub open spec fn batch_oks<T>(s: Seq<Option<Result<T, TransportError>>>) -> Seq<T> {
    s.filter_map(
        |o: Option<Result<T, TransportError>>|
            match o {
                Some(Ok(v)) => Some(v),
                _ => None,
            },
    )
}

/// How many slots of the batch came back at all.
pub open spec fn batch_answered<T>(s: Seq<Option<Result<T, TransportError>>>) -> int {
    s.filter(|o: Option<Result<T, TransportError>>| o is Some).len() as int
}

/// The first failure of the batch, in request order.
pub open spec fn first_batch_err<T>(s: Seq<Option<Result<T, TransportError>>>) -> Option<
    TransportError,
>
    decreases s.len(),
{
    if s.len() == 0 {
        None
    } else {
        match s.first() {
            Some(Err(e)) => Some(e),
            _ => first_batch_err(s.drop_first()),
        }
    }
}

/// Appending a slot to a batch leaves the first failure alone unless the
/// batch had none, in which case the new slot decides.
proof fn lemma_first_batch_err_push<T>(s: Seq<Option<Result<T, TransportError>>>, x: Option<
    Result<T, TransportError>,
>)
    ensures
        first_batch_err(s.push(x)) == (match first_batch_err(s) {
            Some(e) => Some(e),
            None => match x {
                Some(Err(e)) => Some(e),
                _ => None,
            },
        }),
    decreases s.len(),
{
    reveal_with_fuel(first_batch_err, 3);
    if s.len() == 0 {
        assert(s.push(x).first() == x);
        assert(s.push(x).drop_first() =~= Seq::<Option<Result<T, TransportError>>>::empty());
    } else {
        assert(s.push(x).first() == s.first());
        assert(s.push(x).drop_first() == s.drop_first().push(x)) by {
            assert(s.push(x).drop_first() =~= s.drop_first().push(x));
        }
        lemma_first_batch_err_push(s.drop_first(), x);
    }
}

/// Check and collect the answers of a batch of `expected` requests.
///
/// The first failed answer is surfaced as a transport error; with none, a
/// batch with fewer (or more) answers than requests is the distinct
/// [`BitcoindError::BatchMissingResponse`]; only a full batch of successes
/// is handed back, in request order.
pub fn collect_batch<T>(expected: usize, resps: Vec<Option<Result<T, TransportError>>>) -> (r:
    Result<Vec<T>, BitcoindError>)
    ensures
        first_batch_err(resps@) matches Some(e) ==> (r matches Err(be) && be
            == BitcoindError::Server(e)),
        first_batch_err(resps@) is None && batch_answered(resps@) != expected ==> (r matches Err(
            be,
        ) && be is BatchMissingResponse),
        first_batch_err(resps@) is None && batch_answered(resps@) == expected ==> (r matches Ok(vs)
            && vs@ == batch_oks(resps@)),
        r is Ok ==> batch_answered(resps@) == expected,
{
    let total: usize = resps.len();
    let ghost all = resps@;
    let ghost select = |o: Option<Result<T, TransportError>>|
        match o {
            Some(Ok(v)) => Some(v),
            _ => None,
        };
    let ghost answered = |o: Option<Result<T, TransportError>>| o is Some;
    let mut remaining = resps;
    let mut values: Vec<T> = Vec::new();
    let mut first_err: Option<TransportError> = None;
    let mut answers: usize = 0;
    let mut i: usize = 0;
    let ghost n = all.len();
    proof {
        assert(all.subrange(0, 0) =~= Seq::<Option<Result<T, TransportError>>>::empty());
        assert(values@ =~= batch_oks(all.subrange(0, 0)));
        assert(all.subrange(0, 0).filter(answered) =~= Seq::<
            Option<Result<T, TransportError>>,
        >::empty()) by {
            reveal(Seq::filter);
        }
    }
    while remaining.len() > 0
        invariant
            i + remaining@.len() == n == all.len(),
            n == total,
            0 <= i <= n,
            remaining@ =~= all.subrange(i as int, n as int),
            values@ == all.subrange(0, i as int).filter_map(select),
            first_err == first_batch_err(all.subrange(0, i as int)),
            answers == all.subrange(0, i as int).filter(answered).len(),
            answers <= i,
            select == (|o: Option<Result<T, TransportError>>|
                match o {
                    Some(Ok(v)) => Some(v),
                    _ => None,
                }),
            answered == (|o: Option<Result<T, TransportError>>| o is Some),
        decreases remaining@.len(),
    {
        let ghost prefix = all.subrange(0, i as int);
        let x = remaining.remove(0);
        proof {
            assert(x == all[i as int]);
            assert(remaining@ =~= all.subrange(i + 1, n as int));
            let longer = all.subrange(0, i + 1);
            assert(longer.drop_last() =~= prefix);
            assert(longer.last() == x);
            lemma_first_batch_err_push(prefix, x);
            assert(prefix.push(x) =~= longer);
            Seq::lemma_filter_push(prefix, x, answered);
        }
        match x {
            Some(Ok(v)) => {
                values.push(v);
                answers = answers + 1;
            },
            Some(Err(e)) => {
                if first_err.is_none() {
                    first_err = Some(e);
                }
                answers = answers + 1;
            },
            None => {},
        }
        i = i + 1;
    }
    proof {
        assert(all.subrange(0, n as int) =~= all);
    }
    match first_err {
        Some(e) => Err(BitcoindError::Server(e)),
        None => {
            if answers != expected {
                Err(BitcoindError::BatchMissingResponse)
            } else {
                Ok(values)
            }
        },
    }
}

} // verus!
