//! Line framing: a byte stream is cut into text lines at LF, with a
//! trailing CR stripped, and outbound lines are written back with
//! CRLF appended.  An overlong line and undecodable text are reported
//! as recoverable errors, distinct from transport faults.

use vstd::prelude::*;
use vstd::utf8::{decode_utf8, encode_utf8, valid_utf8};

verus! {

/// The longest line the transport accepts, in bytes.
pub const MAX_LINE_LENGTH: usize = 8192;

/// What can be wrong with a frame, short of a transport fault: both
/// are recoverable and leave the connection open.
#[derive(Debug, PartialEq, Eq)]
pub enum CodecError {
    /// A line ran past [`MAX_LINE_LENGTH`].
    LineTooLong,
    /// A line was not valid text.
    InvalidUtf8,
}

/// The length of the longest LF-free prefix of `s`.
pub open spec fn lf_free_prefix(s: Seq<u8>) -> nat
    decreases s.len(),
{
    if s.len() == 0 || s[0] == 10 {
        0
    } else {
        1 + lf_free_prefix(s.skip(1))
    }
}

/// A cut with the first-LF properties can only be `lf_free_prefix`.
pub proof fn lemma_lf_prefix_unique(s: Seq<u8>, n: int)
    requires
        0 <= n <= s.len(),
        forall|i: int| 0 <= i < n ==> s[i] != 10,
        n < s.len() ==> s[n] == 10,
    ensures
        n == lf_free_prefix(s),
    decreases s.len(),
{
    if s.len() == 0 || s[0] == 10 {
    } else {
        assert forall|i: int| 0 <= i < n - 1 implies s.skip(1)[i] != 10 by {
            assert(s.skip(1)[i] == s[i + 1]);
        }
        if n - 1 < s.skip(1).len() {
            assert(s.skip(1)[n - 1] == s[n]);
        }
        lemma_lf_prefix_unique(s.skip(1), n - 1);
    }
}

/// Splits the first complete line off a buffer: the bytes before the
/// first LF (minus a trailing CR) and everything after the LF.
/// Nothing while no LF has arrived.
pub open spec fn line_split(s: Seq<u8>) -> Option<(Seq<u8>, Seq<u8>)> {
    let i = lf_free_prefix(s) as int;
    if i == s.len() {
        None
    } else {
        let raw = s.take(i);
        let rest = s.skip(i + 1);
        if raw.len() > 0 && raw.last() == 13 {
            Some((raw.drop_last(), rest))
        } else {
            Some((raw, rest))
        }
    }
}

/// Marker for the line-based wire protocol: a transport speaking it
/// frames its bytes with [`LineCodec`].
pub struct LineProto;

/// The line transport.
pub struct LineCodec;

impl LineCodec {
    /// Takes the first complete line out of `buf` and decodes it.
    /// `Ok(None)` while no full line has arrived; an overlong or
    /// undecodable line is consumed and reported, and the connection
    /// can go on.  A buffer growing past the limit without a line
    /// break is reported too, and left to the transport to cut off.
    pub fn decode(buf: &mut Vec<u8>) -> (r: Result<Option<String>, CodecError>)
        ensures
            match line_split(old(buf)@) {
                None => final(buf)@ == old(buf)@ && (if old(buf)@.len() > MAX_LINE_LENGTH {
                    r == Err::<Option<String>, CodecError>(CodecError::LineTooLong)
                } else {
                    r == Ok::<Option<String>, CodecError>(None)
                }),
                Some((lineb, rest)) => final(buf)@ == rest && (if lineb.len() > MAX_LINE_LENGTH {
                    r == Err::<Option<String>, CodecError>(CodecError::LineTooLong)
                } else if !valid_utf8(lineb) {
                    r == Err::<Option<String>, CodecError>(CodecError::InvalidUtf8)
                } else {
                    match r {
                        Ok(Some(s)) => s@ == decode_utf8(lineb),
                        _ => false,
                    }
                }),
            },
    {
        let n = buf.len();
        let mut i: usize = 0;
        while i < n && buf[i] != 10
            invariant
                0 <= i <= n,
                n == buf@.len(),
                forall|j: int| 0 <= j < i ==> buf@[j] != 10,
            decreases n - i,
        {
            i = i + 1;
        }
        proof {
            assert(buf@.skip(0) =~= buf@);
            lemma_lf_prefix_unique(buf@, i as int);
        }
        if i == n {
            if n > MAX_LINE_LENGTH {
                return Err(CodecError::LineTooLong);
            }
            return Ok(None);
        }
        let end = if i > 0 && buf[i - 1] == 13 {
            i - 1
        } else {
            i
        };
        let line = crate::helper::sub_bytes(buf, 0, end);
        let rest = crate::helper::sub_bytes(buf, i + 1, n);
        proof {
            let raw = old(buf)@.take(i as int);
            if i > 0 && old(buf)@[i - 1] == 13 {
                assert(raw.len() > 0 && raw.last() == 13);
                assert(raw.drop_last() =~= old(buf)@.subrange(0, i - 1));
            } else {
                if raw.len() > 0 {
                    assert(raw.last() == old(buf)@[i - 1]);
                }
                assert(raw =~= old(buf)@.subrange(0, i as int));
            }
            assert(old(buf)@.skip(i + 1) =~= old(buf)@.subrange(i + 1, n as int));
        }
        *buf = rest;
        if line.len() > MAX_LINE_LENGTH {
            return Err(CodecError::LineTooLong);
        }
        match crate::helper::utf8_to_string(&line) {
            Some(s) => Ok(Some(s)),
            None => Err(CodecError::InvalidUtf8),
        }
    }

    /// Serializes one outbound line: its bytes, then CRLF.
    pub fn encode(msg: &str, buf: &mut Vec<u8>)
        ensures
            final(buf)@ == old(buf)@ + encode_utf8(msg@) + seq![13u8, 10u8],
    {
        let bytes = msg.as_bytes_vec();
        let mut i: usize = 0;
        while i < bytes.len()
            invariant
                0 <= i <= bytes@.len(),
                bytes@ == encode_utf8(msg@),
                buf@ == old(buf)@ + bytes@.take(i as int),
            decreases bytes@.len() - i,
        {
            buf.push(bytes[i]);
            proof {
                assert(buf@ =~= old(buf)@ + bytes@.take(i + 1));
            }
            i = i + 1;
        }
        buf.push(13);
        buf.push(10);
        proof {
            assert(bytes@.take(bytes@.len() as int) =~= bytes@);
            assert(buf@ =~= old(buf)@ + encode_utf8(msg@) + seq![13u8, 10u8]);
        }
    }
}

} // verus!
