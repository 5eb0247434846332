use vstd::prelude::*;

use crate::middleware::{ErrView, Middleware, Status};
use crate::request::Request;
use crate::response::Response;

verus! {

/// The traversal marker a chain keeps between the phases of one dispatch.
///
/// It is recomputed at the start of every enter phase and is valid input
/// only to the phase that immediately follows it.
#[derive(Clone, Copy, PartialEq, Eq, Structural, Debug)]
pub enum ChainStatus {
    /// Handler at this ordinal position returned [`Status::Unwind`];
    /// handlers before it continued and must be revisited on the way out.
    Unwound(usize),
    /// Handler at this ordinal position returned [`Status::Error`];
    /// handlers before it must be revisited via the error path, never the
    /// normal exit path.
    Errored(usize),
    /// No handler stopped the forward pass.
    Unhandled,
}

/// Whether a marker's position fits a chain of `n` handlers: the handlers
/// to revisit, `[0, i)`, must all exist.
pub open spec fn marker_in_bounds(mk: ChainStatus, n: int) -> bool {
    match mk {
        ChainStatus::Unwound(i) => i <= n,
        ChainStatus::Errored(i) => i <= n,
        ChainStatus::Unhandled => true,
    }
}

/// The abstract dispatch protocol: how the enter, exit and error phases
/// compose into one `dispatch` call, independent of how the handlers are
/// stored.
///
/// An implementation chooses its own traversal by giving the three model
/// functions; the contract of every method, `dispatch` included, is stated
/// over those models, so a caller reasons about any chain the same way.
pub trait Chain: Sized {
    /// The middleware type this chain stores.
    type Mw: Middleware;

    /// The views of the linked handlers, in link order.
    spec fn handlers(self) -> Seq<<Self::Mw as View>::V>;

    /// The traversal marker left by the last phase run.
    spec fn marker(self) -> ChainStatus;

    /// The chain's internal well-formedness: constructors establish it and
    /// every method preserves it.
    spec fn wf(self) -> bool;

    /// What the enter traversal computes from the handlers and the two
    /// payload views: the handlers after, the request and response after,
    /// the marker left behind, and the status returned.
    spec fn enter_model(handlers: Seq<<Self::Mw as View>::V>, req: Seq<u64>, res: Seq<u64>) -> (
        Seq<<Self::Mw as View>::V>,
        Seq<u64>,
        Seq<u64>,
        ChainStatus,
        Status<ErrView<Self::Mw>>,
    );

    /// What the exit traversal computes, given the marker the enter phase
    /// left behind.
    spec fn exit_model(
        handlers: Seq<<Self::Mw as View>::V>,
        marker: ChainStatus,
        req: Seq<u64>,
        res: Seq<u64>,
    ) -> (Seq<<Self::Mw as View>::V>, Seq<u64>, Seq<u64>);

    /// What the error traversal computes, given the marker and the
    /// triggering payload's view.
    spec fn error_model(
        handlers: Seq<<Self::Mw as View>::V>,
        marker: ChainStatus,
        req: Seq<u64>,
        res: Seq<u64>,
        e: ErrView<Self::Mw>,
    ) -> (Seq<<Self::Mw as View>::V>, Seq<u64>, Seq<u64>);

    /// An empty chain with no linked handlers.
    fn new() -> (c: Self)
        ensures
            c.handlers() == Seq::<<Self::Mw as View>::V>::empty(),
            c.marker() == ChainStatus::Unhandled,
            c.wf(),
    ;

    /// Appends a handler to the end of the chain's ordered storage. Order
    /// is significant: it is the order the enter phase will follow.
    fn link(&mut self, middleware: Self::Mw)
        requires
            old(self).wf(),
        ensures
            final(self).handlers() == old(self).handlers().push(middleware@),
            final(self).marker() == old(self).marker(),
            final(self).wf(),
    ;

    /// The forward pass: walks handlers in link order, stopping at the
    /// first that does not continue, and leaves the marker saying where and
    /// why it stopped.
    fn chain_enter(&mut self, request: &mut Request, response: &mut Response) -> (s: Status<
        <Self::Mw as Middleware>::Err,
    >)
        ensures
            ({
                let (hs, rq, rs, mk, st) = Self::enter_model(
                    old(self).handlers(),
                    old(request)@,
                    old(response)@,
                );
                final(self).handlers() == hs && final(request)@ == rq && final(response)@ == rs
                    && final(self).marker() == mk && s@ == st
            }),
            final(self).wf(),
            final(self).handlers().len() == old(self).handlers().len(),
            (final(self).marker() is Errored) <==> (s is Error),
    ;

    /// The return pass: revisits, in strictly descending index order, the
    /// handlers the enter phase passed through. Running it after an error
    /// is a contract violation, excluded here by precondition; an
    /// implementation fails loudly if an unverified caller does it anyway.
    fn chain_exit(&mut self, request: &mut Request, response: &mut Response) -> (s: Status<
        <Self::Mw as Middleware>::Err,
    >)
        requires
            old(self).wf(),
            !(old(self).marker() is Errored),
        ensures
            ({
                let (hs, rq, rs) = Self::exit_model(
                    old(self).handlers(),
                    old(self).marker(),
                    old(request)@,
                    old(response)@,
                );
                final(self).handlers() == hs && final(request)@ == rq && final(response)@ == rs
            }),
            final(self).marker() == old(self).marker(),
            final(self).wf(),
            final(self).handlers().len() == old(self).handlers().len(),
            s is Continue,
    ;

    /// The error-recovery pass: revisits, in strictly descending index
    /// order, the handlers the enter phase passed through, handing each the
    /// same payload. Valid only right after an enter phase that errored;
    /// anything else is a contract violation, excluded here by
    /// precondition.
    fn chain_error(
        &mut self,
        request: &mut Request,
        response: &mut Response,
        error: &<Self::Mw as Middleware>::Err,
    )
        requires
            old(self).wf(),
            old(self).marker() is Errored,
        ensures
            ({
                let (hs, rq, rs) = Self::error_model(
                    old(self).handlers(),
                    old(self).marker(),
                    old(request)@,
                    old(response)@,
                    error@,
                );
                final(self).handlers() == hs && final(request)@ == rq && final(response)@ == rs
            }),
            final(self).marker() == old(self).marker(),
            final(self).wf(),
            final(self).handlers().len() == old(self).handlers().len(),
    ;

    /// An independent duplicate: same handlers, each duplicated with its
    /// internal state, sharing nothing with the original. One configured
    /// chain is duplicated once per in-flight request, so that handler
    /// state is never shared across concurrently served requests.
    fn duplicate(&self) -> (c: Self)
        ensures
            c.handlers() == self.handlers(),
            c.marker() == self.marker(),
            self.wf() ==> c.wf(),
    ;

    /// One full request-processing cycle: the enter phase, then the error
    /// traversal if it errored, the exit traversal otherwise. Returns the
    /// enter phase's status unchanged — the return pass is observed but
    /// never alters the outcome, and an error payload reaches the caller
    /// verbatim.
    fn dispatch(&mut self, request: &mut Request, response: &mut Response) -> (s: Status<
        <Self::Mw as Middleware>::Err,
    >)
        ensures
            ({
                let (hs, rq, rs, mk, st) = Self::enter_model(
                    old(self).handlers(),
                    old(request)@,
                    old(response)@,
                );
                s@ == st && final(self).marker() == mk && final(self).wf()
                    && final(self).handlers().len() == old(self).handlers().len() && (match st {
                    Status::Error(e) => ({
                        let (hs2, rq2, rs2) = Self::error_model(hs, mk, rq, rs, e);
                        final(self).handlers() == hs2 && final(request)@ == rq2 && final(response)@ == rs2
                    }),
                    _ => ({
                        let (hs2, rq2, rs2) = Self::exit_model(hs, mk, rq, rs);
                        final(self).handlers() == hs2 && final(request)@ == rq2 && final(response)@ == rs2
                    }),
                })
            }),
    {
        let status = self.chain_enter(request, response);
        match status {
            Status::Error(e) => {
                self.chain_error(request, response, &e);
                Status::Error(e)
            },
            Status::Unwind => {
                let _ = self.chain_exit(request, response);
                Status::Unwind
            },
            Status::Continue => {
                let _ = self.chain_exit(request, response);
                Status::Continue
            },
        }
    }
}

} // verus!
