//! What the trivial requests carry.
use vstd::prelude::*;

use crate::packets::IInput;

verus! {

broadcast use vstd::string::group_string_axioms;

/// Nothing.
pub struct EmptyInput {}

impl IInput for EmptyInput {
    open spec fn store_text(&self) -> Seq<char> {
        Seq::empty()
    }

    open spec fn origin_text(&self) -> Seq<char> {
        Seq::empty()
    }

    fn get_store_id(&self) -> (r: String) {
        String::new()
    }

    fn origin(&self) -> (r: String) {
        String::new()
    }
}

/// Whom to greet.
pub struct HelloInput {
    pub name: String,
}

impl IInput for HelloInput {
    open spec fn store_text(&self) -> Seq<char> {
        Seq::empty()
    }

    open spec fn origin_text(&self) -> Seq<char> {
        Seq::empty()
    }

    fn get_store_id(&self) -> (r: String) {
        String::new()
    }

    fn origin(&self) -> (r: String) {
        String::new()
    }
}

/// Nothing.
pub struct PingInput {}

impl IInput for PingInput {
    open spec fn store_text(&self) -> Seq<char> {
        Seq::empty()
    }

    open spec fn origin_text(&self) -> Seq<char> {
        Seq::empty()
    }

    fn get_store_id(&self) -> (r: String) {
        String::new()
    }

    fn origin(&self) -> (r: String) {
        String::new()
    }
}

} // verus!
