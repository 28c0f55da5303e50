//! A raw inbound request: whatever bytes have arrived.

use vstd::prelude::*;

verus! {

/// The bytes of one inbound request.
pub struct Request {
    data: Vec<u8>,
}

impl View for Request {
    type V = Seq<u8>;

    closed spec fn view(&self) -> Seq<u8> {
        self.data@
    }
}

impl Request {
    /// Borrows the request's bytes.
    pub fn data(&self) -> (r: &Vec<u8>)
        ensures
            r@ == self@,
    {
        &self.data
    }
}

/// Drains the inbound buffer into a request.
pub fn decode(buf: &mut Vec<u8>) -> (r: Request)
    ensures
        r@ == old(buf)@,
        final(buf)@.len() == 0,
{
    let data = crate::helper::sub_bytes(buf, 0, buf.len());
    buf.clear();
    proof {
        assert(data@ =~= old(buf)@);
    }
    Request { data }
}

} // verus!
