//! The composer: an ordered, non-empty list of guards as a single effective
//! guard.
//!
//! Guards are evaluated strictly in list order, leftmost first.  The first
//! guard to reject stops the chain, and its rejection response is the
//! composite's result, unchanged; no later guard is evaluated.  If every
//! guard accepts, the cumulatively mutated request after the last guard is
//! the composite's accepted output.

use vstd::prelude::*;
use crate::guards::{eval_guard, eval_guard_spec, Guard};
use crate::request::{Request, Response};

verus! {

/// What a guard list decides: the first rejection, or the request as mutated
/// by every guard in order.
pub open spec fn eval_chain_spec(gs: Seq<Guard>, req: Request) -> Result<Request, Response>
    decreases gs.len(),
{
    if gs.len() == 0 {
        Ok(req)
    } else {
        match eval_guard_spec(gs[0], req) {
            Ok(forwarded) => eval_chain_spec(gs.skip(1), forwarded),
            Err(rejection) => Err(rejection),
        }
    }
}

/// An ordered, non-empty list of guards, composed into one effective guard.
#[derive(Debug)]
pub struct GuardChain {
    pub guards: Vec<Guard>,
}

impl Clone for GuardChain {
    fn clone(&self) -> (r: Self)
        ensures
            r.guards@ == self.guards@,
    {
        let guards = self.guards.clone();
        proof {
            assert(guards@ =~= self.guards@) by {
                assert forall|i: int| 0 <= i < self.guards@.len() implies guards@[i]
                    == self.guards@[i] by {
                    assert(vstd::pervasive::cloned(self.guards@[i], guards@[i]));
                }
            }
        }
        GuardChain { guards }
    }
}

impl GuardChain {
    /// Composes the given guards, in the order given.
    pub fn new(guards: Vec<Guard>) -> (r: Self)
        requires
            guards@.len() > 0,
        ensures
            r.guards@ == guards@,
    {
        GuardChain { guards }
    }

    /// Evaluates the composed guard.
    pub fn eval(&self, req: Request) -> (r: Result<Request, Response>)
        ensures
            r == eval_chain_spec(self.guards@, req),
    {
        eval_chain(&self.guards, req)
    }
}

/// Evaluates a guard list in order, short-circuiting on the first rejection.
pub fn eval_chain(guards: &Vec<Guard>, req: Request) -> (r: Result<Request, Response>)
    ensures
        r == eval_chain_spec(guards@, req),
{
    let ghost whole = guards@;
    let n = guards.len();
    let mut cur = req;
    let mut i: usize = 0;
    proof {
        assert(whole.skip(0) =~= whole);
    }
    while i < n
        invariant
            i <= n,
            n == whole.len(),
            guards@ == whole,
            eval_chain_spec(whole, req) == eval_chain_spec(whole.skip(i as int), cur),
        decreases n - i,
    {
        let ghost before = cur;
        proof {
            assert(whole.skip(i as int)[0] == whole[i as int]);
            assert(whole.skip(i as int).skip(1) =~= whole.skip(i + 1));
        }
        match eval_guard(&guards[i], cur) {
            Ok(forwarded) => {
                cur = forwarded;
            },
            Err(rejection) => {
                proof {
                    assert(eval_chain_spec(whole.skip(i as int), before) == Err::<
                        Request,
                        Response,
                    >(rejection));
                    assert(eval_chain_spec(whole, req) == Err::<Request, Response>(
                        rejection,
                    ));
                }
                return Err(rejection);
            },
        }
        i += 1;
    }
    proof {
        assert(whole.skip(n as int) =~= Seq::<Guard>::empty());
    }
    Ok(cur)
}

/// Splitting a chain: evaluating `left + right` runs `left` first; only if
/// every guard of `left` accepts does `right` see the forwarded request, and
/// a rejection inside `left` is the whole chain's result.
pub proof fn lemma_chain_append(left: Seq<Guard>, right: Seq<Guard>, req: Request)
    ensures
        eval_chain_spec(left + right, req) == (match eval_chain_spec(left, req) {
            Ok(forwarded) => eval_chain_spec(right, forwarded),
            Err(rejection) => Err(rejection),
        }),
    decreases left.len(),
{
    if left.len() == 0 {
        assert(left + right =~= right);
    } else {
        assert((left + right)[0] == left[0]);
        assert((left + right).skip(1) =~= left.skip(1) + right);
        match eval_guard_spec(left[0], req) {
            Ok(forwarded) => {
                lemma_chain_append(left.skip(1), right, forwarded);
            },
            Err(_) => {
            },
        }
    }
}

/// Prepending one guard: the leftmost guard is evaluated first, and its
/// rejection is the composite's result with no evaluation of the rest.
pub proof fn lemma_chain_leftmost_first(g: Guard, rest: Seq<Guard>, req: Request)
    ensures
        eval_chain_spec(seq![g] + rest, req) == (match eval_guard_spec(g, req) {
            Ok(forwarded) => eval_chain_spec(rest, forwarded),
            Err(rejection) => Err(rejection),
        }),
{
    assert((seq![g] + rest)[0] == g);
    assert((seq![g] + rest).skip(1) =~= rest);
}

/// Short-circuiting: once a prefix of the chain rejects, the whole chain's
/// result is that same rejection, whatever guards follow.
pub proof fn lemma_chain_short_circuits(left: Seq<Guard>, right: Seq<Guard>, req: Request)
    requires
        eval_chain_spec(left, req) is Err,
    ensures
        eval_chain_spec(left + right, req) == eval_chain_spec(left, req),
{
    lemma_chain_append(left, right, req);
}

/// Every rejection is the first rejection: when a chain rejects a request,
/// there is a guard before which every guard accepted — the chain's prefix up
/// to it forwards some request — whose own rejection of that forwarded
/// request is, unchanged, the whole chain's result.
pub proof fn lemma_rejection_is_the_first(gs: Seq<Guard>, req: Request)
    requires
        eval_chain_spec(gs, req) is Err,
    ensures
        exists|i: int|
            0 <= i < gs.len() && (#[trigger] eval_chain_spec(gs.take(i), req)) is Ok
                && eval_guard_spec(gs[i], eval_chain_spec(gs.take(i), req)->Ok_0)
                == eval_chain_spec(gs, req),
    decreases gs.len(),
{
    assert(gs.len() > 0);
    assert(gs.take(0) =~= Seq::<Guard>::empty());
    match eval_guard_spec(gs[0], req) {
        Err(rejection) => {
            assert(eval_chain_spec(gs.take(0), req) is Ok);
            assert(eval_guard_spec(gs[0], eval_chain_spec(gs.take(0), req)->Ok_0)
                == eval_chain_spec(gs, req));
        },
        Ok(forwarded) => {
            lemma_rejection_is_the_first(gs.skip(1), forwarded);
            let j = choose|j: int|
                0 <= j < gs.skip(1).len() && (#[trigger] eval_chain_spec(
                    gs.skip(1).take(j),
                    forwarded,
                )) is Ok && eval_guard_spec(
                    gs.skip(1)[j],
                    eval_chain_spec(gs.skip(1).take(j), forwarded)->Ok_0,
                ) == eval_chain_spec(gs.skip(1), forwarded);
            let i = j + 1;
            assert(gs.take(i)[0] == gs[0]);
            assert(gs.take(i).skip(1) =~= gs.skip(1).take(j));
            assert(eval_chain_spec(gs.take(i), req) == eval_chain_spec(
                gs.skip(1).take(j),
                forwarded,
            ));
            assert(gs[i] == gs.skip(1)[j]);
        },
    }
}

/// An accepting chain forwards the request intact but for the authenticated
/// identifier: the session and the headers of the forwarded request are those
/// of the inbound one; only the attached identifier may differ.
pub proof fn lemma_chain_forwards_request_intact(gs: Seq<Guard>, req: Request)
    requires
        eval_chain_spec(gs, req) is Ok,
    ensures
        eval_chain_spec(gs, req)->Ok_0.session == req.session,
        eval_chain_spec(gs, req)->Ok_0.referer == req.referer,
        eval_chain_spec(gs, req)->Ok_0.origin == req.origin,
    decreases gs.len(),
{
    if gs.len() > 0 {
        match eval_guard_spec(gs[0], req) {
            Ok(forwarded) => {
                crate::guards::lemma_guard_forwards_request_intact(gs[0], req);
                lemma_chain_forwards_request_intact(gs.skip(1), forwarded);
            },
            Err(_) => {
            },
        }
    }
}

/// A non-empty chain given a request with no session rejects it with the
/// wiring-fault response, whatever its guards.
pub proof fn lemma_chain_missing_session(gs: Seq<Guard>, req: Request)
    requires
        gs.len() > 0,
        req.session is None,
    ensures
        eval_chain_spec(gs, req) == Err::<Request, Response>(Response::server_error()),
{
    crate::guards::lemma_missing_session_is_server_error(gs[0], req);
}

} // verus!
