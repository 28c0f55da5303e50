//! A buffered outbound response and its serialization.

use vstd::prelude::*;
use vstd::utf8::encode_utf8;

verus! {

/// One response being assembled before it goes out.
pub struct Response {
    response: String,
}

impl View for Response {
    type V = Seq<char>;

    closed spec fn view(&self) -> Seq<char> {
        self.response@
    }
}

impl Response {
    /// An empty response.
    pub fn new() -> (r: Response)
        ensures
            r@ == Seq::<char>::empty(),
    {
        let r = Response { response: String::new() };
        proof {
            assert(r@ =~= Seq::<char>::empty());
        }
        r
    }

    /// Replaces the response text.
    pub fn body(&mut self, s: &str)
        ensures
            final(self)@ == s@,
    {
        self.response = s.to_owned();
    }
}

/// Serializes a response into the outbound buffer: its bytes, then
/// the line terminator.
pub fn encode(msg: Response, buf: &mut Vec<u8>)
    ensures
        final(buf)@ == old(buf)@ + encode_utf8(msg@) + seq![13u8, 10u8],
{
    crate::codec::LineCodec::encode(msg.response.as_str(), buf);
}

} // verus!
