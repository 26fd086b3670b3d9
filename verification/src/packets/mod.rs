//! What requests carry, and where they are served.
pub mod program;
pub mod simple;
pub mod stores;

use vstd::prelude::*;

verus! {

/// What every request says of itself: the store it is addressed to, and the origin that
/// serves it. An empty origin is this node, and `global` is the whole network.
pub trait IInput {
    spec fn store_text(&self) -> Seq<char>;

    spec fn origin_text(&self) -> Seq<char>;

    /// The store that the request is addressed to.
    fn get_store_id(&self) -> (r: String)
        ensures
            r@ == self.store_text(),
    ;

    /// The origin that serves the request.
    fn origin(&self) -> (r: String)
        ensures
            r@ == self.origin_text(),
    ;
}

} // verus!
