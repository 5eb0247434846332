use vstd::prelude::*;

verus! {

/// The request half of an in-flight exchange.
///
/// The dispatch core never interprets a request: it only hands handlers
/// mutable access to it. The payload is an opaque sequence of words that the
/// surrounding layer and the handlers agree on among themselves.
pub struct Request {
    /// The opaque payload. Handlers may read and mutate it freely; side
    /// effects here are one of the two channels by which a handler talks to
    /// later handlers and to the layer around the chain.
    pub body: Vec<u64>,
}

impl View for Request {
    type V = Seq<u64>;

    open spec fn view(&self) -> Seq<u64> {
        self.body@
    }
}

impl Request {
    /// An empty request.
    pub fn new() -> (r: Request)
        ensures
            r@ == Seq::<u64>::empty(),
    {
        Request { body: Vec::new() }
    }
}

} // verus!
