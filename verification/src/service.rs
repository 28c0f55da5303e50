//! A minimal tagged request/response pair and an echo service over
//! them: a request's tag and value come back unchanged.

use vstd::prelude::*;

verus! {

/// A tagged request carrying one value.
pub struct Request {
    tag: usize,
    value: u32,
}

impl Request {
    /// The request's correlation tag.
    pub closed spec fn spec_tag(&self) -> usize {
        self.tag
    }

    /// The request's payload.
    pub closed spec fn spec_value(&self) -> u32 {
        self.value
    }

    /// A fresh request for `val`, not yet tagged.
    pub fn new(val: u32) -> (r: Request)
        ensures
            r.spec_tag() == 0,
            r.spec_value() == val,
    {
        Request { tag: 0, value: val }
    }

    /// Sets the correlation tag.
    pub fn set_tag(&mut self, tag: usize)
        ensures
            final(self).spec_tag() == tag,
            final(self).spec_value() == old(self).spec_value(),
    {
        self.tag = tag;
    }
}

/// A tagged response carrying one value.
pub struct Response {
    tag: usize,
    value: u32,
}

impl Response {
    /// The response's correlation tag.
    pub closed spec fn spec_tag(&self) -> usize {
        self.tag
    }

    /// The response's payload.
    pub closed spec fn spec_value(&self) -> u32 {
        self.value
    }

    /// Confirms the payload is the expected one; callers must only
    /// check values they can account for.
    pub fn check(&self, expected: u32)
        requires
            self.spec_value() == expected,
    {
    }

    /// The response's correlation tag.
    pub fn get_tag(&self) -> (r: usize)
        ensures
            r == self.spec_tag(),
    {
        self.tag
    }
}

impl From<Request> for Response {
    /// Echoes a request back: same tag, same value.
    fn from(r: Request) -> (resp: Response) {
        Response { tag: r.tag, value: r.value }
    }
}

impl vstd::std_specs::convert::FromSpecImpl<Request> for Response {
    closed spec fn obeys_from_spec() -> bool {
        true
    }

    closed spec fn from_spec(r: Request) -> Response {
        Response { tag: r.tag, value: r.value }
    }
}

/// The echo service: every request is answered with itself.
pub struct Echo;

impl Echo {
    /// Answers one request.
    pub fn call(&self, req: Request) -> (r: Response)
        ensures
            r.spec_tag() == req.spec_tag(),
            r.spec_value() == req.spec_value(),
    {
        Response::from(req)
    }
}

} // verus!
