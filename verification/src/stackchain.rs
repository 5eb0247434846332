use vstd::prelude::*;

use crate::chain::{marker_in_bounds, Chain, ChainStatus};
use crate::middleware::{ErrView, Middleware, Status};
use crate::request::Request;
use crate::response::Response;

verus! {

/// The views of a stack of handlers, in stack order.
pub open spec fn views_of<M: Middleware>(stack: Seq<M>) -> Seq<M::V> {
    Seq::new(stack.len(), |i: int| stack[i]@)
}

/// The enter traversal from position `i` on: walk the handlers in
/// ascending order, applying each one's enter model, until one does not
/// continue. Yields the handlers after, the request and response after,
/// the marker describing where the walk stopped, and the status the walk
/// returns.
pub open spec fn enter_fold<M: Middleware>(
    stack: Seq<M::V>,
    req: Seq<u64>,
    res: Seq<u64>,
    i: int,
) -> (Seq<M::V>, Seq<u64>, Seq<u64>, ChainStatus, Status<ErrView<M>>)
    decreases stack.len() - i,
{
    if i < 0 || i >= stack.len() {
        (stack, req, res, ChainStatus::Unhandled, Status::Continue)
    } else {
        let (m2, rq2, rs2, st) = M::enter_model(stack[i], req, res);
        match st {
            Status::Continue => enter_fold::<M>(stack.update(i, m2), rq2, rs2, i + 1),
            Status::Unwind => (
                stack.update(i, m2),
                rq2,
                rs2,
                ChainStatus::Unwound(i as usize),
                Status::Unwind,
            ),
            Status::Error(e) => (
                stack.update(i, m2),
                rq2,
                rs2,
                ChainStatus::Errored(i as usize),
                Status::Error(e),
            ),
        }
    }
}

/// The exit traversal over positions `[0, n)`: apply the exit model of
/// handler `n - 1`, then of `n - 2`, and so on down to `0`, whatever
/// status each returns.
pub open spec fn exit_fold<M: Middleware>(stack: Seq<M::V>, req: Seq<u64>, res: Seq<u64>, n: int) -> (
    Seq<M::V>,
    Seq<u64>,
    Seq<u64>,
)
    decreases n,
{
    if n <= 0 || n > stack.len() {
        (stack, req, res)
    } else {
        let (m2, rq2, rs2, st) = M::exit_model(stack[n - 1], req, res);
        exit_fold::<M>(stack.update(n - 1, m2), rq2, rs2, n - 1)
    }
}

/// The error traversal over positions `[0, n)`: apply the error model of
/// handler `n - 1`, then of `n - 2`, and so on down to `0`, handing each
/// the same payload.
pub open spec fn error_fold<M: Middleware>(
    stack: Seq<M::V>,
    req: Seq<u64>,
    res: Seq<u64>,
    e: ErrView<M>,
    n: int,
) -> (Seq<M::V>, Seq<u64>, Seq<u64>)
    decreases n,
{
    if n <= 0 || n > stack.len() {
        (stack, req, res)
    } else {
        let (m2, rq2, rs2) = M::error_model(stack[n - 1], req, res, e);
        error_fold::<M>(stack.update(n - 1, m2), rq2, rs2, e, n - 1)
    }
}

/// Removing the element at `i` and inserting another in its place is the
/// same as updating position `i`.
proof fn lemma_remove_insert<T>(s: Seq<T>, i: int, x: T)
    requires
        0 <= i < s.len(),
    ensures
        s.remove(i).insert(i, x) =~= s.update(i, x),
{
    let t = s.remove(i).insert(i, x);
    assert forall|j: int| 0 <= j < s.len() implies t[j] == s.update(i, x)[j] by {
        if j < i {
            assert(t[j] == s.remove(i)[j]);
        } else if j > i {
            assert(t[j] == s.remove(i)[j - 1]);
        }
    }
}

/// Updating one handler updates one view.
proof fn lemma_views_of_update<M: Middleware>(s: Seq<M>, i: int, m: M)
    requires
        0 <= i < s.len(),
    ensures
        views_of(s.update(i, m)) =~= views_of(s).update(i, m@),
{
}

/// The default chain: an ordered stack of owned middleware plus the
/// traversal marker.
///
/// `StackChain` runs each request through all middleware in its stack, in
/// link order. When it hits middleware which returns [`Status::Unwind`],
/// it passes the request back up through exactly the middleware it has hit
/// so far, in reverse; when one returns [`Status::Error`], it revisits the
/// same middleware through the error path instead.
pub struct StackChain<M: Middleware> {
    /// The storage used to hold all middleware that have been linked.
    stack: Vec<M>,
    /// The traversal marker from the most recent enter phase.
    status: ChainStatus,
}

impl<M: Middleware> Chain for StackChain<M> {
    type Mw = M;

    closed spec fn handlers(self) -> Seq<M::V> {
        views_of(self.stack@)
    }

    closed spec fn marker(self) -> ChainStatus {
        self.status
    }

    closed spec fn wf(self) -> bool {
        marker_in_bounds(self.status, self.stack@.len() as int)
    }

    open spec fn enter_model(handlers: Seq<M::V>, req: Seq<u64>, res: Seq<u64>) -> (
        Seq<M::V>,
        Seq<u64>,
        Seq<u64>,
        ChainStatus,
        Status<ErrView<M>>,
    ) {
        enter_fold::<M>(handlers, req, res, 0)
    }

    open spec fn exit_model(
        handlers: Seq<M::V>,
        marker: ChainStatus,
        req: Seq<u64>,
        res: Seq<u64>,
    ) -> (Seq<M::V>, Seq<u64>, Seq<u64>) {
        match marker {
            ChainStatus::Unwound(i) => exit_fold::<M>(handlers, req, res, i as int),
            ChainStatus::Unhandled => exit_fold::<M>(handlers, req, res, handlers.len() as int),
            ChainStatus::Errored(_) => (handlers, req, res),
        }
    }

    open spec fn error_model(
        handlers: Seq<M::V>,
        marker: ChainStatus,
        req: Seq<u64>,
        res: Seq<u64>,
        e: ErrView<M>,
    ) -> (Seq<M::V>, Seq<u64>, Seq<u64>) {
        match marker {
            ChainStatus::Errored(i) => error_fold::<M>(handlers, req, res, e, i as int),
            _ => (handlers, req, res),
        }
    }

    fn new() -> (c: Self) {
        let c = StackChain { stack: Vec::new(), status: ChainStatus::Unhandled };
        proof {
            assert(c.handlers() =~= Seq::<M::V>::empty());
        }
        c
    }

    fn link(&mut self, middleware: M) {
        let ghost pre = self.stack@;
        let ghost mv = middleware@;
        self.stack.push(middleware);
        proof {
            assert(self.handlers() =~= views_of(pre).push(mv));
        }
    }

    fn chain_enter(&mut self, request: &mut Request, response: &mut Response) -> (s: Status<
        M::Err,
    >) {
        self.status = ChainStatus::Unhandled;
        let ghost hs0 = self.handlers();
        let ghost rq0 = request@;
        let ghost rs0 = response@;
        let mut i: usize = 0;
        while i < self.stack.len()
            invariant
                i <= self.stack@.len(),
                self.status == ChainStatus::Unhandled,
                self.stack@.len() == hs0.len(),
                hs0 == old(self).handlers(),
                rq0 == old(request)@,
                rs0 == old(response)@,
                enter_fold::<M>(hs0, rq0, rs0, 0) == enter_fold::<M>(
                    views_of(self.stack@),
                    request@,
                    response@,
                    i as int,
                ),
            decreases self.stack@.len() - i,
        {
            let ghost pre = self.stack@;
            let ghost prq = request@;
            let ghost prs = response@;
            let mut m = self.stack.remove(i);
            let st = m.enter(request, response);
            let ghost mafter = m;
            self.stack.insert(i, m);
            proof {
                lemma_remove_insert::<M>(pre, i as int, mafter);
                lemma_views_of_update::<M>(pre, i as int, mafter);
                assert(views_of(self.stack@) == views_of(pre).update(i as int, mafter@));
                assert(views_of(pre)[i as int] == pre[i as int]@);
            }
            match st {
                Status::Continue => {
                    i = i + 1;
                },
                Status::Unwind => {
                    self.status = ChainStatus::Unwound(i);
                    return Status::Unwind;
                },
                Status::Error(e) => {
                    self.status = ChainStatus::Errored(i);
                    return Status::Error(e);
                },
            }
        }
        Status::Continue
    }

    fn chain_exit(&mut self, request: &mut Request, response: &mut Response) -> (s: Status<
        M::Err,
    >) {
        let n: usize = match self.status {
            ChainStatus::Unwound(i) => i,
            ChainStatus::Unhandled => self.stack.len(),
            ChainStatus::Errored(_) => unreached(),
        };
        let ghost mk0 = self.status;
        let ghost hs0 = self.handlers();
        let ghost rq0 = request@;
        let ghost rs0 = response@;
        let mut j: usize = n;
        while j > 0
            invariant
                j <= n,
                n <= self.stack@.len(),
                self.status == mk0,
                self.stack@.len() == hs0.len(),
                hs0 == old(self).handlers(),
                rq0 == old(request)@,
                rs0 == old(response)@,
                mk0 == old(self).marker(),
                n as int == (match mk0 {
                    ChainStatus::Unwound(i) => i as int,
                    ChainStatus::Unhandled => hs0.len() as int,
                    ChainStatus::Errored(i) => i as int,
                }),
                exit_fold::<M>(hs0, rq0, rs0, n as int) == exit_fold::<M>(
                    views_of(self.stack@),
                    request@,
                    response@,
                    j as int,
                ),
            decreases j,
        {
            j = j - 1;
            let ghost pre = self.stack@;
            let mut m = self.stack.remove(j);
            let _ = m.exit(request, response);
            let ghost mafter = m;
            self.stack.insert(j, m);
            proof {
                lemma_remove_insert::<M>(pre, j as int, mafter);
                lemma_views_of_update::<M>(pre, j as int, mafter);
                assert(views_of(pre)[j as int] == pre[j as int]@);
            }
        }
        Status::Continue
    }

    fn chain_error(&mut self, request: &mut Request, response: &mut Response, error: &M::Err) {
        let n: usize = match self.status {
            ChainStatus::Errored(i) => i,
            _ => unreached(),
        };
        let ghost mk0 = self.status;
        let ghost hs0 = self.handlers();
        let ghost rq0 = request@;
        let ghost rs0 = response@;
        let ghost ev = error@;
        let mut j: usize = n;
        while j > 0
            invariant
                j <= n,
                n <= self.stack@.len(),
                self.status == mk0,
                self.stack@.len() == hs0.len(),
                hs0 == old(self).handlers(),
                rq0 == old(request)@,
                rs0 == old(response)@,
                mk0 == old(self).marker(),
                ev == error@,
                mk0 == ChainStatus::Errored(n),
                error_fold::<M>(hs0, rq0, rs0, ev, n as int) == error_fold::<M>(
                    views_of(self.stack@),
                    request@,
                    response@,
                    ev,
                    j as int,
                ),
            decreases j,
        {
            j = j - 1;
            let ghost pre = self.stack@;
            let mut m = self.stack.remove(j);
            m.on_error(request, response, error);
            let ghost mafter = m;
            self.stack.insert(j, m);
            proof {
                lemma_remove_insert::<M>(pre, j as int, mafter);
                lemma_views_of_update::<M>(pre, j as int, mafter);
                assert(views_of(pre)[j as int] == pre[j as int]@);
            }
        }
    }

    fn duplicate(&self) -> (c: Self) {
        let mut stack: Vec<M> = Vec::new();
        let mut i: usize = 0;
        while i < self.stack.len()
            invariant
                i <= self.stack@.len(),
                stack@.len() == i,
                forall|j: int| 0 <= j < i ==> #[trigger] stack@[j]@ == self.stack@[j]@,
            decreases self.stack@.len() - i,
        {
            let m = self.stack[i].duplicate();
            stack.push(m);
            i = i + 1;
        }
        let c = StackChain { stack, status: self.status };
        proof {
            assert(c.handlers() =~= self.handlers());
        }
        c
    }
}

impl<M: Middleware> StackChain<M> {
    /// A chain over an already-collected stack of handlers, in the order
    /// they will be entered, with a fresh marker.
    pub fn from_vec(stack: Vec<M>) -> (c: StackChain<M>)
        ensures
            c.handlers() == views_of(stack@),
            c.marker() == ChainStatus::Unhandled,
            c.wf(),
    {
        StackChain { stack, status: ChainStatus::Unhandled }
    }

    /// The number of linked handlers.
    pub fn len(&self) -> (n: usize)
        ensures
            n == self.handlers().len(),
    {
        self.stack.len()
    }

    /// A borrow of the handler at position `i`, for inspection from
    /// outside a dispatch.
    pub fn handler_at(&self, i: usize) -> (m: &M)
        requires
            i < self.handlers().len(),
        ensures
            m@ == self.handlers()[i as int],
    {
        &self.stack[i]
    }

    /// Overwrites the traversal marker. The exit and error traversals
    /// branch on the marker, so a driver that runs the phases by hand can
    /// place the chain in a chosen state; the marker must fit the number
    /// of linked handlers.
    pub fn set_status(&mut self, status: ChainStatus)
        requires
            marker_in_bounds(status, old(self).handlers().len() as int),
        ensures
            final(self).handlers() == old(self).handlers(),
            final(self).marker() == status,
            final(self).wf(),
    {
        self.status = status;
    }
}

} // verus!
