use vstd::prelude::*;

verus! {

/// The response half of an in-flight exchange.
///
/// Like the request, the response is opaque to the dispatch core: handlers
/// build it up as the traversal runs, and the layer around the chain reads
/// it afterwards.
pub struct Response {
    /// The opaque payload under construction. Handlers may read and mutate
    /// it freely.
    pub body: Vec<u64>,
}

impl View for Response {
    type V = Seq<u64>;

    open spec fn view(&self) -> Seq<u64> {
        self.body@
    }
}

impl Response {
    /// An empty response.
    pub fn new() -> (r: Response)
        ensures
            r@ == Seq::<u64>::empty(),
    {
        Response { body: Vec::new() }
    }
}

} // verus!
