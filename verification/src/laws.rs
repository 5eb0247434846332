use vstd::prelude::*;

use crate::chain::{marker_in_bounds, Chain, ChainStatus};
use crate::middleware::{ErrView, Middleware, Status};
use crate::stackchain::{enter_fold, error_fold, exit_fold, StackChain};

verus! {

/// One handler call, as an entry in a dispatch's call record: which
/// operation ran on the handler at which position.
pub enum Event {
    /// `enter` ran on the handler at this position.
    Entered(int),
    /// `exit` ran on the handler at this position.
    Exited(int),
    /// `on_error` ran on the handler at this position.
    Notified(int),
}

/// The record of enter calls the enter traversal makes from position `i`
/// on: one per handler walked, in ascending order, ending at the first
/// handler that does not continue.
pub open spec fn enter_trace<M: Middleware>(
    stack: Seq<M::V>,
    req: Seq<u64>,
    res: Seq<u64>,
    i: int,
) -> Seq<Event>
    decreases stack.len() - i,
{
    if i < 0 || i >= stack.len() {
        Seq::empty()
    } else {
        let (m2, rq2, rs2, st) = M::enter_model(stack[i], req, res);
        match st {
            Status::Continue => seq![Event::Entered(i)] + enter_trace::<M>(
                stack.update(i, m2),
                rq2,
                rs2,
                i + 1,
            ),
            _ => seq![Event::Entered(i)],
        }
    }
}

/// The record of exit calls the exit traversal over `[0, n)` makes:
/// positions `n - 1` down to `0`, in that order.
pub open spec fn exit_trace(n: int) -> Seq<Event> {
    Seq::new(
        if n >= 0 {
            n as nat
        } else {
            0
        },
        |j: int| Event::Exited(n - 1 - j),
    )
}

/// The record of error notifications the error traversal over `[0, n)`
/// makes: positions `n - 1` down to `0`, in that order.
pub open spec fn error_trace(n: int) -> Seq<Event> {
    Seq::new(
        if n >= 0 {
            n as nat
        } else {
            0
        },
        |j: int| Event::Notified(n - 1 - j),
    )
}

/// How many handlers a marker sends the return pass over, in a chain of
/// `total` handlers.
pub open spec fn replay_count(mk: ChainStatus, total: int) -> int {
    match mk {
        ChainStatus::Unwound(i) => i as int,
        ChainStatus::Errored(i) => i as int,
        ChainStatus::Unhandled => total,
    }
}

/// Everything one full dispatch of a [`StackChain`] computes: the handler
/// views, the request and response views, the marker, and the status the
/// caller receives — the enter traversal followed by the error traversal
/// if it errored, the exit traversal otherwise.
pub open spec fn dispatch_fold<M: Middleware>(stack: Seq<M::V>, req: Seq<u64>, res: Seq<u64>) -> (
    Seq<M::V>,
    Seq<u64>,
    Seq<u64>,
    ChainStatus,
    Status<ErrView<M>>,
) {
    let (hs, rq, rs, mk, st) = enter_fold::<M>(stack, req, res, 0);
    match st {
        Status::Error(e) => {
            let (h2, r2, p2) = error_fold::<M>(hs, rq, rs, e, replay_count(mk, hs.len() as int));
            (h2, r2, p2, mk, st)
        },
        _ => {
            let (h2, r2, p2) = exit_fold::<M>(hs, rq, rs, replay_count(mk, hs.len() as int));
            (h2, r2, p2, mk, st)
        },
    }
}

/// The full call record of one dispatch: the enter calls, then either the
/// error notifications or the exit calls over the handlers that had
/// continued.
pub open spec fn dispatch_trace<M: Middleware>(
    stack: Seq<M::V>,
    req: Seq<u64>,
    res: Seq<u64>,
) -> Seq<Event> {
    let (hs, rq, rs, mk, st) = enter_fold::<M>(stack, req, res, 0);
    let et = enter_trace::<M>(stack, req, res, 0);
    match st {
        Status::Error(e) => et + error_trace(replay_count(mk, hs.len() as int)),
        _ => et + exit_trace(replay_count(mk, hs.len() as int)),
    }
}

/// Shape of the enter traversal: it keeps the number of handlers, leaves
/// the handlers before its starting position alone, leaves a marker that
/// fits the chain, and the marker always agrees with the returned status.
pub proof fn lemma_enter_fold_shape<M: Middleware>(
    stack: Seq<M::V>,
    req: Seq<u64>,
    res: Seq<u64>,
    i: int,
)
    requires
        0 <= i <= stack.len(),
        stack.len() <= usize::MAX,
    ensures
        ({
            let (hs, rq, rs, mk, st) = enter_fold::<M>(stack, req, res, i);
            hs.len() == stack.len() && marker_in_bounds(mk, stack.len() as int) && ((st is Error)
                <==> (mk is Errored)) && ((st is Unwind) <==> (mk is Unwound)) && ((st is Continue)
                <==> (mk == ChainStatus::Unhandled)) && (forall|j: int|
                0 <= j < i ==> hs[j] == stack[j]) && (mk matches ChainStatus::Unwound(u) ==> i <= u
                < stack.len()) && (mk matches ChainStatus::Errored(u) ==> i <= u < stack.len())
        }),
    decreases stack.len() - i,
{
    if i < stack.len() {
        let (m2, rq2, rs2, st) = M::enter_model(stack[i], req, res);
        match st {
            Status::Continue => {
                lemma_enter_fold_shape::<M>(stack.update(i, m2), rq2, rs2, i + 1);
            },
            _ => {},
        }
    }
}

/// Shape of the exit traversal: it keeps the number of handlers and
/// leaves the handlers at and beyond its bound alone.
pub proof fn lemma_exit_fold_shape<M: Middleware>(
    stack: Seq<M::V>,
    req: Seq<u64>,
    res: Seq<u64>,
    n: int,
)
    requires
        n <= stack.len(),
    ensures
        ({
            let (hs, rq, rs) = exit_fold::<M>(stack, req, res, n);
            hs.len() == stack.len() && (forall|j: int|
                n <= j < stack.len() ==> hs[j] == stack[j])
        }),
    decreases n,
{
    if 0 < n {
        let (m2, rq2, rs2, st) = M::exit_model(stack[n - 1], req, res);
        lemma_exit_fold_shape::<M>(stack.update(n - 1, m2), rq2, rs2, n - 1);
    }
}

/// Shape of the error traversal: it keeps the number of handlers and
/// leaves the handlers at and beyond its bound alone.
pub proof fn lemma_error_fold_shape<M: Middleware>(
    stack: Seq<M::V>,
    req: Seq<u64>,
    res: Seq<u64>,
    e: ErrView<M>,
    n: int,
)
    requires
        n <= stack.len(),
    ensures
        ({
            let (hs, rq, rs) = error_fold::<M>(stack, req, res, e, n);
            hs.len() == stack.len() && (forall|j: int|
                n <= j < stack.len() ==> hs[j] == stack[j])
        }),
    decreases n,
{
    if 0 < n {
        let (m2, rq2, rs2) = M::error_model(stack[n - 1], req, res, e);
        lemma_error_fold_shape::<M>(stack.update(n - 1, m2), rq2, rs2, e, n - 1);
    }
}

/// [`dispatch_fold`] says the same thing as the contract of
/// [`Chain::dispatch`] instantiated at [`StackChain`]: the enter model
/// followed by the error model on an error status, the exit model
/// otherwise.
pub proof fn lemma_dispatch_fold_matches_chain<M: Middleware>(
    stack: Seq<M::V>,
    req: Seq<u64>,
    res: Seq<u64>,
)
    requires
        stack.len() <= usize::MAX,
    ensures
        ({
            let (hs, rq, rs, mk, st) = enter_fold::<M>(stack, req, res, 0);
            dispatch_fold::<M>(stack, req, res) == (match st {
                Status::Error(e) => {
                    let (h2, r2, p2) = <StackChain<M> as Chain>::error_model(hs, mk, rq, rs, e);
                    (h2, r2, p2, mk, st)
                },
                _ => {
                    let (h2, r2, p2) = <StackChain<M> as Chain>::exit_model(hs, mk, rq, rs);
                    (h2, r2, p2, mk, st)
                },
            })
        }),
{
    lemma_enter_fold_shape::<M>(stack, req, res, 0);
}

/// LAW (no-op chain): dispatching over an empty chain returns
/// [`Status::Continue`], touches nothing, and makes no handler call at
/// all.
pub proof fn lemma_empty_dispatch<M: Middleware>(req: Seq<u64>, res: Seq<u64>)
    ensures
        dispatch_fold::<M>(Seq::empty(), req, res) == (
            Seq::<M::V>::empty(),
            req,
            res,
            ChainStatus::Unhandled,
            Status::<ErrView<M>>::Continue,
        ),
        dispatch_trace::<M>(Seq::empty(), req, res) == Seq::<Event>::empty(),
{
    assert(enter_trace::<M>(Seq::empty(), req, res, 0) =~= Seq::<Event>::empty());
    assert(exit_trace(0) =~= Seq::<Event>::empty());
    assert(enter_trace::<M>(Seq::empty(), req, res, 0) + exit_trace(0) =~= Seq::<Event>::empty());
}

/// Helper for the all-continue law, generalized over the starting
/// position.
proof fn lemma_enter_all_continue_from<M: Middleware>(
    stack: Seq<M::V>,
    req: Seq<u64>,
    res: Seq<u64>,
    i: int,
)
    requires
        0 <= i <= stack.len(),
        forall|j: int, rq: Seq<u64>, rs: Seq<u64>|
            i <= j < stack.len() ==> (#[trigger] M::enter_model(stack[j], rq, rs)).3 is Continue,
    ensures
        ({
            let (hs, rq2, rs2, mk, st) = enter_fold::<M>(stack, req, res, i);
            mk == ChainStatus::Unhandled && st == Status::<ErrView<M>>::Continue
        }),
        enter_trace::<M>(stack, req, res, i) =~= Seq::new(
            (stack.len() - i) as nat,
            |j: int| Event::Entered(i + j),
        ),
    decreases stack.len() - i,
{
    if i < stack.len() {
        let (m2, rq2, rs2, st) = M::enter_model(stack[i], req, res);
        assert(st is Continue);
        let stack2 = stack.update(i, m2);
        assert forall|j: int, rq_: Seq<u64>, rs_: Seq<u64>|
            i + 1 <= j < stack2.len() implies (#[trigger] M::enter_model(
            stack2[j],
            rq_,
            rs_,
        )).3 is Continue by {
            assert(stack2[j] == stack[j]);
            assert((M::enter_model(stack[j], rq_, rs_)).3 is Continue);
        }
        lemma_enter_all_continue_from::<M>(stack2, rq2, rs2, i + 1);
    }
}

/// LAW (all-continue chain): when every handler's enter continues
/// whatever it sees, a dispatch enters the handlers at positions
/// `0, 1, .., N - 1` in that order, exits them at positions
/// `N - 1, .., 1, 0` in that order, and returns [`Status::Continue`] with
/// the marker left at [`ChainStatus::Unhandled`].
pub proof fn lemma_all_continue_dispatch<M: Middleware>(
    stack: Seq<M::V>,
    req: Seq<u64>,
    res: Seq<u64>,
)
    requires
        stack.len() <= usize::MAX,
        forall|j: int, rq: Seq<u64>, rs: Seq<u64>|
            0 <= j < stack.len() ==> (#[trigger] M::enter_model(stack[j], rq, rs)).3 is Continue,
    ensures
        dispatch_fold::<M>(stack, req, res).3 == ChainStatus::Unhandled,
        dispatch_fold::<M>(stack, req, res).4 == Status::<ErrView<M>>::Continue,
        dispatch_trace::<M>(stack, req, res) == Seq::new(stack.len(), |j: int| Event::Entered(j))
            + Seq::new(stack.len(), |j: int| Event::Exited(stack.len() - 1 - j)),
{
    lemma_enter_all_continue_from::<M>(stack, req, res, 0);
    lemma_enter_fold_shape::<M>(stack, req, res, 0);
    assert(enter_trace::<M>(stack, req, res, 0) =~= Seq::new(
        stack.len(),
        |j: int| Event::Entered(j),
    ));
    assert(exit_trace(stack.len() as int) =~= Seq::new(
        stack.len(),
        |j: int| Event::Exited(stack.len() - 1 - j),
    ));
}

/// Helper for the unwind law, generalized over the starting position.
proof fn lemma_enter_unwind_from<M: Middleware>(
    stack: Seq<M::V>,
    req: Seq<u64>,
    res: Seq<u64>,
    i: int,
    k: int,
)
    requires
        0 <= i <= k < stack.len(),
        stack.len() <= usize::MAX,
        forall|j: int, rq: Seq<u64>, rs: Seq<u64>|
            i <= j < k ==> (#[trigger] M::enter_model(stack[j], rq, rs)).3 is Continue,
        forall|rq: Seq<u64>, rs: Seq<u64>| (#[trigger] M::enter_model(stack[k], rq, rs)).3 is Unwind,
    ensures
        ({
            let (hs, rq2, rs2, mk, st) = enter_fold::<M>(stack, req, res, i);
            mk == ChainStatus::Unwound(k as usize) && st == Status::<ErrView<M>>::Unwind && (forall|
                j: int,
            |
                k < j < stack.len() ==> hs[j] == stack[j])
        }),
        enter_trace::<M>(stack, req, res, i) =~= Seq::new(
            (k + 1 - i) as nat,
            |j: int| Event::Entered(i + j),
        ),
    decreases k - i,
{
    let (m2, rq2, rs2, st) = M::enter_model(stack[i], req, res);
    let stack2 = stack.update(i, m2);
    if i == k {
        assert(st is Unwind);
    } else {
        assert(st is Continue);
        assert forall|j: int, rq_: Seq<u64>, rs_: Seq<u64>|
            i + 1 <= j < k implies (#[trigger] M::enter_model(stack2[j], rq_, rs_)).3
            is Continue by {
            assert(stack2[j] == stack[j]);
            assert((M::enter_model(stack[j], rq_, rs_)).3 is Continue);
        }
        assert forall|rq_: Seq<u64>, rs_: Seq<u64>| (#[trigger] M::enter_model(
            stack2[k],
            rq_,
            rs_,
        )).3 is Unwind by {
            assert(stack2[k] == stack[k]);
            assert((M::enter_model(stack[k], rq_, rs_)).3 is Unwind);
        }
        lemma_enter_unwind_from::<M>(stack2, rq2, rs2, i + 1, k);
    }
}

/// LAW (unwind at position k): when the handlers before `k` continue
/// whatever they see and the handler at `k` unwinds whatever it sees, a
/// dispatch enters exactly the handlers at positions `0..=k` in
/// ascending order, exits exactly those at `k - 1, .., 0` in that order,
/// never touches a handler beyond `k`, and returns [`Status::Unwind`]
/// with the marker at `Unwound(k)`.
pub proof fn lemma_unwind_at_dispatch<M: Middleware>(
    stack: Seq<M::V>,
    req: Seq<u64>,
    res: Seq<u64>,
    k: int,
)
    requires
        0 <= k < stack.len(),
        stack.len() <= usize::MAX,
        forall|j: int, rq: Seq<u64>, rs: Seq<u64>|
            0 <= j < k ==> (#[trigger] M::enter_model(stack[j], rq, rs)).3 is Continue,
        forall|rq: Seq<u64>, rs: Seq<u64>| (#[trigger] M::enter_model(stack[k], rq, rs)).3 is Unwind,
    ensures
        dispatch_fold::<M>(stack, req, res).3 == ChainStatus::Unwound(k as usize),
        dispatch_fold::<M>(stack, req, res).4 == Status::<ErrView<M>>::Unwind,
        forall|j: int|
            k < j < stack.len() ==> dispatch_fold::<M>(stack, req, res).0[j] == stack[j],
        dispatch_trace::<M>(stack, req, res) == Seq::new(
            (k + 1) as nat,
            |j: int| Event::Entered(j),
        ) + Seq::new(k as nat, |j: int| Event::Exited(k - 1 - j)),
{
    lemma_enter_unwind_from::<M>(stack, req, res, 0, k);
    lemma_enter_fold_shape::<M>(stack, req, res, 0);
    let (hs, rq, rs, mk, st) = enter_fold::<M>(stack, req, res, 0);
    lemma_exit_fold_shape::<M>(hs, rq, rs, k);
    assert(enter_trace::<M>(stack, req, res, 0) =~= Seq::new(
        (k + 1) as nat,
        |j: int| Event::Entered(j),
    ));
    assert(exit_trace(k) =~= Seq::new(k as nat, |j: int| Event::Exited(k - 1 - j)));
}

/// Helper for the error law, generalized over the starting position.
proof fn lemma_enter_error_from<M: Middleware>(
    stack: Seq<M::V>,
    req: Seq<u64>,
    res: Seq<u64>,
    e: ErrView<M>,
    i: int,
    k: int,
)
    requires
        0 <= i <= k < stack.len(),
        stack.len() <= usize::MAX,
        forall|j: int, rq: Seq<u64>, rs: Seq<u64>|
            i <= j < k ==> (#[trigger] M::enter_model(stack[j], rq, rs)).3 is Continue,
        forall|rq: Seq<u64>, rs: Seq<u64>|
            (#[trigger] M::enter_model(stack[k], rq, rs)).3 == Status::<ErrView<M>>::Error(e),
    ensures
        ({
            let (hs, rq2, rs2, mk, st) = enter_fold::<M>(stack, req, res, i);
            mk == ChainStatus::Errored(k as usize) && st == Status::<ErrView<M>>::Error(e) && (
            forall|j: int| k < j < stack.len() ==> hs[j] == stack[j])
        }),
        enter_trace::<M>(stack, req, res, i) =~= Seq::new(
            (k + 1 - i) as nat,
            |j: int| Event::Entered(i + j),
        ),
    decreases k - i,
{
    let (m2, rq2, rs2, st) = M::enter_model(stack[i], req, res);
    let stack2 = stack.update(i, m2);
    if i == k {
        assert(st == Status::<ErrView<M>>::Error(e));
    } else {
        assert(st is Continue);
        assert forall|j: int, rq_: Seq<u64>, rs_: Seq<u64>|
            i + 1 <= j < k implies (#[trigger] M::enter_model(stack2[j], rq_, rs_)).3
            is Continue by {
            assert(stack2[j] == stack[j]);
            assert((M::enter_model(stack[j], rq_, rs_)).3 is Continue);
        }
        assert forall|rq_: Seq<u64>, rs_: Seq<u64>| (#[trigger] M::enter_model(
            stack2[k],
            rq_,
            rs_,
        )).3 == Status::<ErrView<M>>::Error(e) by {
            assert(stack2[k] == stack[k]);
            assert((M::enter_model(stack[k], rq_, rs_)).3 == Status::<ErrView<M>>::Error(e));
        }
        lemma_enter_error_from::<M>(stack2, rq2, rs2, e, i + 1, k);
    }
}

/// LAW (error at position k, payload e): when the handlers before `k`
/// continue whatever they see and the handler at `k` raises `e` whatever
/// it sees, a dispatch enters exactly the handlers at positions `0..=k`
/// in ascending order, notifies exactly those at `k - 1, .., 0` of the
/// error in that order — the same payload to each, as the error traversal
/// threads one payload through — makes no exit call anywhere, never
/// touches a handler beyond `k`, and returns `e` to the caller verbatim
/// with the marker at `Errored(k)`.
pub proof fn lemma_error_at_dispatch<M: Middleware>(
    stack: Seq<M::V>,
    req: Seq<u64>,
    res: Seq<u64>,
    e: ErrView<M>,
    k: int,
)
    requires
        0 <= k < stack.len(),
        stack.len() <= usize::MAX,
        forall|j: int, rq: Seq<u64>, rs: Seq<u64>|
            0 <= j < k ==> (#[trigger] M::enter_model(stack[j], rq, rs)).3 is Continue,
        forall|rq: Seq<u64>, rs: Seq<u64>|
            (#[trigger] M::enter_model(stack[k], rq, rs)).3 == Status::<ErrView<M>>::Error(e),
    ensures
        dispatch_fold::<M>(stack, req, res).3 == ChainStatus::Errored(k as usize),
        dispatch_fold::<M>(stack, req, res).4 == Status::<ErrView<M>>::Error(e),
        forall|j: int|
            k < j < stack.len() ==> dispatch_fold::<M>(stack, req, res).0[j] == stack[j],
        dispatch_trace::<M>(stack, req, res) == Seq::new(
            (k + 1) as nat,
            |j: int| Event::Entered(j),
        ) + Seq::new(k as nat, |j: int| Event::Notified(k - 1 - j)),
        forall|t: int|
            0 <= t < dispatch_trace::<M>(stack, req, res).len() ==> !(dispatch_trace::<M>(
                stack,
                req,
                res,
            )[t] is Exited),
{
    lemma_enter_error_from::<M>(stack, req, res, e, 0, k);
    lemma_enter_fold_shape::<M>(stack, req, res, 0);
    let (hs, rq, rs, mk, st) = enter_fold::<M>(stack, req, res, 0);
    lemma_error_fold_shape::<M>(hs, rq, rs, e, k);
    assert(enter_trace::<M>(stack, req, res, 0) =~= Seq::new(
        (k + 1) as nat,
        |j: int| Event::Entered(j),
    ));
    assert(error_trace(k) =~= Seq::new(k as nat, |j: int| Event::Notified(k - 1 - j)));
    let tr = dispatch_trace::<M>(stack, req, res);
    assert forall|t: int| 0 <= t < tr.len() implies !(tr[t] is Exited) by {
        if t <= k {
            assert(tr[t] == Event::Entered(t));
        } else {
            assert(tr[t] == Event::Notified(k - 1 - (t - (k + 1))));
        }
    }
}

/// LAW (instance independence): what a dispatch does is a function of the
/// chain's own handlers and payloads alone, so duplicates — which
/// [`Chain::duplicate`] guarantees carry equal handler views — can never
/// affect one another: equal starting points give equal outcomes.
pub proof fn lemma_instance_independence<M: Middleware>(
    h1: Seq<M::V>,
    h2: Seq<M::V>,
    req: Seq<u64>,
    res: Seq<u64>,
)
    requires
        h1 == h2,
    ensures
        dispatch_fold::<M>(h1, req, res) == dispatch_fold::<M>(h2, req, res),
        dispatch_trace::<M>(h1, req, res) == dispatch_trace::<M>(h2, req, res),
{
}

} // verus!
