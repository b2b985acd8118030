//! SpiceAPI request messages and the source of their IDs.
use vstd::prelude::*;

use crate::json::{items_view, Json, JsonView};

verus! {

/// The first ID that a fresh source hands out.
pub const FIRST_REQUEST_ID: u64 = 1;

/// A source of request IDs: a counter that starts at 1 and counts up by one per
/// request, wrapping around after `u64::MAX`.
pub struct RequestIds {
    next: u64,
}

impl View for RequestIds {
    type V = u64;

    /// The ID that the source hands out next.
    closed spec fn view(&self) -> u64 {
        self.next
    }
}

/// The ID that follows `id`, wrapping around after `u64::MAX`.
pub open spec fn following_id(id: u64) -> u64 {
    if id == u64::MAX { 0 } else { (id + 1) as u64 }
}

/// IDs increase from one request to the next, until the counter wraps around
/// after `u64::MAX`.
pub proof fn lemma_ids_increase(id: u64)
    ensures
        id < u64::MAX ==> following_id(id) > id,
        id == u64::MAX ==> following_id(id) == 0,
{
}

impl RequestIds {
    /// A fresh source; its first ID is 1.
    pub fn new() -> (ids: Self)
        ensures
            ids@ == FIRST_REQUEST_ID,
    {
        RequestIds { next: FIRST_REQUEST_ID }
    }

    /// Hands out the next ID.
    pub fn next_id(&mut self) -> (id: u64)
        ensures
            id == old(self)@,
            final(self)@ == following_id(old(self)@),
    {
        let id = self.next;
        self.next = self.next.wrapping_add(1);
        id
    }
}

/// The mathematical value of a request.
pub struct RequestView {
    pub id: u64,
    pub module: Seq<char>,
    pub function: Seq<char>,
    pub params: Seq<JsonView>,
}

/// A SpiceAPI request message.
pub struct Request {
    id: u64,
    module: String,
    function: String,
    params: Vec<Json>,
}

impl View for Request {
    type V = RequestView;

    closed spec fn view(&self) -> RequestView {
        RequestView {
            id: self.id,
            module: self.module@,
            function: self.function@,
            params: items_view(self.params@),
        }
    }
}

impl Request {
    /// Create a new request with the next ID of `ids`.
    pub fn new(ids: &mut RequestIds, module: &str, function: &str) -> (req: Self)
        ensures
            req@ == (RequestView { id: old(ids)@, module: module@, function: function@, params: Seq::empty() }),
            final(ids)@ == following_id(old(ids)@),
    {
        let id = ids.next_id();
        Self::with_id(id, module, function)
    }

    /// Create a request with a specific ID (used for session_refresh).
    pub fn with_id(id: u64, module: &str, function: &str) -> (req: Self)
        ensures
            req@ == (RequestView { id, module: module@, function: function@, params: Seq::empty() }),
    {
        let req = Request {
            id,
            module: String::from_str(module),
            function: String::from_str(function),
            params: Vec::new(),
        };
        assert(req@.params =~= Seq::<JsonView>::empty());
        req
    }

    /// Appends `param` to the parameters.
    pub fn add_param(&mut self, param: Json)
        ensures
            final(self)@ == (RequestView { params: old(self)@.params.push(param@), ..old(self)@ }),
    {
        self.params.push(param);
        assert(self@.params =~= old(self)@.params.push(param@));
    }

    /// The request's ID.
    pub fn id(&self) -> (id: u64)
        ensures
            id == self@.id,
    {
        self.id
    }

    /// The module that the request addresses.
    pub fn module(&self) -> (m: &str)
        ensures
            m@ == self@.module,
    {
        self.module.as_str()
    }

    /// The function of the module that the request calls.
    pub fn function(&self) -> (f: &str)
        ensures
            f@ == self@.function,
    {
        self.function.as_str()
    }

    /// The parameters of the call.
    pub fn params(&self) -> (p: &Vec<Json>)
        ensures
            items_view(p@) == self@.params,
    {
        &self.params
    }
}

} // verus!
