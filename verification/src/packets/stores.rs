//! What requests about stores carry.
use vstd::prelude::*;

use crate::packets::IInput;

verus! {

broadcast use vstd::string::group_string_axioms;

/// A signal into a store.
pub struct SignalInput {
    pub store_id: String,
    pub origin: String,
    pub typ: String,
    pub data: String,
    pub tags: Vec<String>,
    pub temp: bool,
}

impl Default for SignalInput {
    fn default() -> (r: Self)
        ensures
            r.store_id@.len() == 0,
            r.origin@.len() == 0,
            r.typ@.len() == 0,
            r.data@.len() == 0,
            r.tags@.len() == 0,
            !r.temp,
    {
        SignalInput {
            store_id: String::new(),
            origin: String::new(),
            typ: String::new(),
            data: String::new(),
            tags: Vec::new(),
            temp: false,
        }
    }
}

impl IInput for SignalInput {
    open spec fn store_text(&self) -> Seq<char> {
        self.store_id@
    }

    open spec fn origin_text(&self) -> Seq<char> {
        self.origin@
    }

    fn get_store_id(&self) -> (r: String) {
        self.store_id.clone()
    }

    fn origin(&self) -> (r: String) {
        self.origin.clone()
    }
}

/// Which signals of a store to replay.
pub struct HistoryInput {
    pub store_id: String,
    pub origin: String,
    pub tags_all: Vec<String>,
    pub tags_any: Vec<String>,
    pub before_time: i64,
    pub after_time: i64,
    pub count: i64,
}

impl Default for HistoryInput {
    fn default() -> (r: Self)
        ensures
            r.store_id@.len() == 0,
            r.origin@.len() == 0,
            r.tags_all@.len() == 0,
            r.tags_any@.len() == 0,
            r.before_time == 0,
            r.after_time == 0,
            r.count == 0,
    {
        HistoryInput {
            store_id: String::new(),
            origin: String::new(),
            tags_all: Vec::new(),
            tags_any: Vec::new(),
            before_time: 0,
            after_time: 0,
            count: 0,
        }
    }
}

impl IInput for HistoryInput {
    open spec fn store_text(&self) -> Seq<char> {
        self.store_id@
    }

    open spec fn origin_text(&self) -> Seq<char> {
        self.origin@
    }

    fn get_store_id(&self) -> (r: String) {
        self.store_id.clone()
    }

    fn origin(&self) -> (r: String) {
        self.origin.clone()
    }
}

/// Which permissions to give a member of a store.
pub struct SetAccessInput {
    pub store_id: String,
    pub origin: String,
    pub member_id: String,
    pub permissions: Vec<String>,
}

impl Default for SetAccessInput {
    fn default() -> (r: Self)
        ensures
            r.store_id@.len() == 0,
            r.origin@.len() == 0,
            r.member_id@.len() == 0,
            r.permissions@.len() == 0,
    {
        SetAccessInput {
            store_id: String::new(),
            origin: String::new(),
            member_id: String::new(),
            permissions: Vec::new(),
        }
    }
}

impl IInput for SetAccessInput {
    open spec fn store_text(&self) -> Seq<char> {
        self.store_id@
    }

    open spec fn origin_text(&self) -> Seq<char> {
        self.origin@
    }

    fn get_store_id(&self) -> (r: String) {
        self.store_id.clone()
    }

    fn origin(&self) -> (r: String) {
        self.origin.clone()
    }
}

/// Whose permissions in a store to read.
pub struct GetAccessInput {
    pub store_id: String,
    pub origin: String,
    pub member_id: String,
}

impl Default for GetAccessInput {
    fn default() -> (r: Self)
        ensures
            r.store_id@.len() == 0,
            r.origin@.len() == 0,
            r.member_id@.len() == 0,
    {
        GetAccessInput {
            store_id: String::new(),
            origin: String::new(),
            member_id: String::new(),
        }
    }
}

impl IInput for GetAccessInput {
    open spec fn store_text(&self) -> Seq<char> {
        self.store_id@
    }

    open spec fn origin_text(&self) -> Seq<char> {
        self.origin@
    }

    fn get_store_id(&self) -> (r: String) {
        self.store_id.clone()
    }

    fn origin(&self) -> (r: String) {
        self.origin.clone()
    }
}

} // verus!
