use vstd::prelude::*;

use crate::request::Request;
use crate::response::Response;

verus! {

/// The three-way outcome a handler, or a whole chain, produces.
pub enum Status<E> {
    /// Proceed to the next handler or phase.
    Continue,
    /// The handler claims responsibility for the request: stop the forward
    /// pass here and revisit, in reverse, the handlers passed so far.
    Unwind,
    /// A failure with its payload: stop the forward pass here and switch to
    /// the error-recovery path.
    Error(E),
}

impl<E: View> View for Status<E> {
    type V = Status<E::V>;

    open spec fn view(&self) -> Status<E::V> {
        match self {
            Status::Continue => Status::Continue,
            Status::Unwind => Status::Unwind,
            Status::Error(e) => Status::Error(e@),
        }
    }
}

/// The only capability an error payload must offer: describing itself as
/// text. The dispatch core itself never calls it; it exists for whoever
/// finally reports the failure.
pub trait Show {
    /// The payload as text.
    fn show(&self) -> String;
}

impl Show for String {
    fn show(&self) -> String {
        self.clone()
    }
}

/// The view of a handler's error payload type.
pub type ErrView<M> = <<M as Middleware>::Err as View>::V;

/// A unit of request processing.
///
/// A middleware exposes three operations: `enter`, run on the way in;
/// `exit`, run on the way back out for handlers whose `enter` returned
/// [`Status::Continue`]; and `on_error`, run instead of `exit` when a later
/// handler raised an error.
///
/// Each operation's behaviour is pinned by a model: a specification
/// function from the views of the handler, the request and the response to
/// the views after the call and the status returned. The models make a
/// handler's behaviour a function of abstract values alone, which is what
/// lets a whole chain's dispatch be given an exact contract.
pub trait Middleware: View + Sized {
    /// The error payload this handler may raise. It need only describe
    /// itself as text.
    type Err: View + Show;

    /// What `enter` does: the handler's state, the request and the response
    /// after the call, and the status returned, as a function of the views
    /// before the call. Defaults to the identity behaviour, continuing and
    /// touching nothing, so an implementer overrides only the models of
    /// the operations it makes do real work.
    open spec fn enter_model(pre: Self::V, req: Seq<u64>, res: Seq<u64>) -> (
        Self::V,
        Seq<u64>,
        Seq<u64>,
        Status<ErrView<Self>>,
    ) {
        (pre, req, res, Status::Continue)
    }

    /// What `exit` does, in the same form as [`Middleware::enter_model`];
    /// the default is again the identity behaviour.
    open spec fn exit_model(pre: Self::V, req: Seq<u64>, res: Seq<u64>) -> (
        Self::V,
        Seq<u64>,
        Seq<u64>,
        Status<ErrView<Self>>,
    ) {
        (pre, req, res, Status::Continue)
    }

    /// What `on_error` does: the handler's state, the request and the
    /// response after the call, as a function of the views before the call
    /// and of the payload's view. Defaults to touching nothing.
    open spec fn error_model(pre: Self::V, req: Seq<u64>, res: Seq<u64>, e: ErrView<Self>) -> (
        Self::V,
        Seq<u64>,
        Seq<u64>,
    ) {
        (pre, req, res)
    }

    /// Run on the way into the chain. May read and mutate the request and
    /// the in-progress response; the returned status decides whether
    /// dispatch continues past this handler.
    fn enter(&mut self, request: &mut Request, response: &mut Response) -> (s: Status<Self::Err>)
        ensures
            (final(self)@, final(request)@, final(response)@, s@) == Self::enter_model(
                old(self)@,
                old(request)@,
                old(response)@,
            ),
    ;

    /// Run on the way back out, only for handlers whose `enter` returned
    /// [`Status::Continue`]. Its status is observed but never alters the
    /// outcome a dispatch reports.
    fn exit(&mut self, request: &mut Request, response: &mut Response) -> (s: Status<Self::Err>)
        ensures
            (final(self)@, final(request)@, final(response)@, s@) == Self::exit_model(
                old(self)@,
                old(request)@,
                old(response)@,
            ),
    ;

    /// Run during error recovery, once, with the triggering payload, only
    /// for handlers whose `enter` returned [`Status::Continue`]. Never
    /// resumes normal processing.
    fn on_error(&mut self, request: &mut Request, response: &mut Response, error: &Self::Err)
        ensures
            (final(self)@, final(request)@, final(response)@) == Self::error_model(
                old(self)@,
                old(request)@,
                old(response)@,
                error@,
            ),
    ;

    /// An independent copy of this handler, internal state included. Chains
    /// duplicate their handlers through this, so that one configured
    /// pipeline can back many in-flight requests without sharing handler
    /// state.
    fn duplicate(&self) -> (m: Self)
        ensures
            m@ == self@,
    ;
}

} // verus!
