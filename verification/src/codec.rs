//! The stable binary format of a stored [`Session`] record: an eight-byte
//! little-endian length, the function name in UTF-8, and the deadline as a
//! sixteen-byte little-endian biased integer.  The decoder accepts exactly
//! the byte strings this layout produces — a record with extra or missing
//! bytes, or an invalid name, is detected rather than misread.

use vstd::prelude::*;
use vstd::bytes::*;
use vstd::slice::slice_subrange;
use vstd::string::*;
use vstd::utf8::*;

use crate::session::{Session, SessionView};

verus! {

/// The bias added to a deadline before it is laid out as an unsigned
/// sixteen-byte integer: the smallest signed 128-bit value maps to zero.
pub open spec fn spec_ends_at_bias() -> int {
    0x8000_0000_0000_0000_0000_0000_0000_0000
}

/// The sixteen bytes that hold a deadline.
pub open spec fn spec_ends_at_bytes(x: int) -> Seq<u8> {
    spec_u128_to_le_bytes((x + spec_ends_at_bias()) as u128)
}

/// The full record for a session: length, name bytes, deadline bytes.
#[verifier::opaque]
pub open spec fn spec_encode_session(v: SessionView) -> Seq<u8> {
    spec_u64_to_le_bytes(encode_utf8(v.function_name).len() as u64) + encode_utf8(v.function_name)
        + spec_ends_at_bytes(v.ends_at)
}

/// What a byte string decodes to: `None` unless it is exactly one
/// well-formed record.
#[verifier::opaque]
pub open spec fn spec_decode_session(b: Seq<u8>) -> Option<SessionView> {
    if b.len() < 24 {
        Option::None
    } else {
        let len = spec_u64_from_le_bytes(b.subrange(0, 8)) as int;
        if b.len() != 24 + len {
            Option::None
        } else {
            let name_bytes = b.subrange(8, 8 + len);
            if !valid_utf8(name_bytes) {
                Option::None
            } else {
                let n = spec_u128_from_le_bytes(b.subrange(8 + len, 24 + len)) as int;
                Option::Some(
                    SessionView {
                        function_name: decode_utf8(name_bytes),
                        ends_at: n - spec_ends_at_bias(),
                    },
                )
            }
        }
    }
}

/// The exec-side bias constant.
const ENDS_AT_BIAS: u128 = 0x8000_0000_0000_0000_0000_0000_0000_0000;

fn ends_at_biased(x: i128) -> (n: u128)
    ensures
        n as int == x + spec_ends_at_bias(),
{
    if x >= 0 {
        (x as u128) + ENDS_AT_BIAS
    } else {
        (x - i128::MIN) as u128
    }
}

fn ends_at_unbiased(n: u128) -> (x: i128)
    ensures
        x as int == n - spec_ends_at_bias(),
{
    if n >= ENDS_AT_BIAS {
        (n - ENDS_AT_BIAS) as i128
    } else {
        i128::MIN + (n as i128)
    }
}

/// Relies on `str::from_utf8` of std: it succeeds exactly on valid UTF-8
/// and yields the character sequence those bytes encode.
#[verifier::external_body]
fn bytes_to_string(v: &[u8]) -> (r: Option<String>)
    ensures
        r is Some <==> valid_utf8(v@),
        r matches Some(s) ==> encode_utf8(s@) == v@ && s@ == decode_utf8(v@),
{
    match std::str::from_utf8(v) {
        Ok(s) => Some(s.to_owned()),
        Err(_) => None,
    }
}

/// Lays a session out as its stored record.
pub fn encode_session(s: &Session) -> (r: Vec<u8>)
    ensures
        r@ == spec_encode_session(s@),
{
    proof {
        reveal(spec_encode_session);
    }
    let name_bytes: Vec<u8> = s.function_name.as_str().as_bytes_vec();
    let mut out: Vec<u8> = u64_to_le_bytes(name_bytes.len() as u64);
    out.extend_from_slice(name_bytes.as_slice());
    let tail: Vec<u8> = u128_to_le_bytes(ends_at_biased(s.ends_at));
    out.extend_from_slice(tail.as_slice());
    proof {
        assert(out@ =~= spec_encode_session(s@));
    }
    out
}

/// Reads a stored record back; `None` on any malformed byte string.
pub fn decode_session(bytes: &[u8]) -> (r: Option<Session>)
    ensures
        r matches Some(s) ==> spec_decode_session(bytes@) == Option::Some(s@),
        r is None ==> spec_decode_session(bytes@) is None,
{
    proof {
        reveal(spec_decode_session);
    }
    if bytes.len() < 24 {
        return None;
    }
    let len_bytes = slice_subrange(bytes, 0, 8);
    let len = u64_from_le_bytes(len_bytes);
    if (len as u128) + 24 != (bytes.len() as u128) {
        return None;
    }
    let name_end: usize = 8 + (len as usize);
    let name_slice = slice_subrange(bytes, 8, name_end);
    let name = match bytes_to_string(name_slice) {
        Some(s) => s,
        None => {
            return None;
        },
    };
    let tail = slice_subrange(bytes, name_end, name_end + 16);
    let n = u128_from_le_bytes(tail);
    let ends_at = ends_at_unbiased(n);
    Some(Session { function_name: name, ends_at })
}

/// Store round-trip: every session that a real `Session` value can hold
/// decodes from its own encoding unchanged.  The bounds are the machine
/// limits of the record: the deadline is a signed 128-bit value and the
/// name's UTF-8 form is addressable.
pub proof fn lemma_session_codec_roundtrip(v: SessionView)
    requires
        -spec_ends_at_bias() <= v.ends_at < spec_ends_at_bias(),
        encode_utf8(v.function_name).len() <= u64::MAX,
    ensures
        spec_decode_session(spec_encode_session(v)) == Option::Some(v),
{
    reveal(spec_encode_session);
    reveal(spec_decode_session);
    broadcast use encode_utf8_valid_utf8;
    broadcast use encode_utf8_decode_utf8;

    lemma_auto_spec_u64_to_from_le_bytes();
    lemma_auto_spec_u128_to_from_le_bytes();
    let name = encode_utf8(v.function_name);
    let len = name.len() as int;
    let b = spec_encode_session(v);
    assert(b.len() == 24 + len);
    assert(b.subrange(0, 8) =~= spec_u64_to_le_bytes(name.len() as u64));
    assert(spec_u64_from_le_bytes(b.subrange(0, 8)) == name.len() as u64);
    assert(b.subrange(8, 8 + len) =~= name);
    assert(b.subrange(8 + len, 24 + len) =~= spec_ends_at_bytes(v.ends_at));
    assert(spec_u128_from_le_bytes(spec_ends_at_bytes(v.ends_at)) == (v.ends_at
        + spec_ends_at_bias()) as u128);
}

} // verus!
