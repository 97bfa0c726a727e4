//! Length-prefixed byte framing shared by the bundled asset record types:
//! a string is written as the byte length of its UTF-8 encoding in eight
//! little-endian bytes, followed by the encoding itself.

use vstd::prelude::*;
use vstd::bytes::lemma_auto_spec_u64_to_from_le_bytes;
use vstd::bytes::spec_u64_to_le_bytes;
use vstd::bytes::u64_from_le_bytes;
use vstd::bytes::u64_to_le_bytes;
use vstd::slice::slice_subrange;
use vstd::slice::slice_to_vec;
use vstd::string::StrSliceExecFns;
use vstd::utf8::decode_utf8;
use vstd::utf8::encode_utf8;
use vstd::utf8::valid_utf8;

verus! {

/// The length-prefixed framing of one string.
pub open spec fn spec_string_block(s: Seq<char>) -> Seq<u8> {
    spec_u64_to_le_bytes(encode_utf8(s).len() as u64) + encode_utf8(s)
}

/// Relies on `String::from_utf8`: it succeeds exactly on valid UTF-8
/// input, and then returns the string whose characters are the input's
/// UTF-8 decoding.
#[verifier::external_body]
fn utf8_to_string(v: Vec<u8>) -> (r: Option<String>)
    ensures
        r is Some <==> valid_utf8(v@),
        r matches Some(s) ==> s@ == decode_utf8(v@),
{
    String::from_utf8(v).ok()
}

/// Appends the length-prefixed block for `s` to `out`.
pub fn push_string_block(out: &mut Vec<u8>, s: &str)
    ensures
        final(out)@ == old(out)@ + spec_string_block(s@),
{
    let mut nb = s.as_bytes_vec();
    let n = nb.len();
    let mut lb = u64_to_le_bytes(n as u64);
    out.append(&mut lb);
    out.append(&mut nb);
    proof {
        assert(final(out)@ =~= old(out)@ + spec_string_block(s@));
    }
}

/// Reads a byte slice of the shape `string block ++ tail`, where the tail
/// holds exactly `tail` trailing bytes, and returns the prefixed string.
/// Returns nothing when the input does not have that shape.
pub fn parse_string_block(bytes: &[u8], tail: usize) -> (r: Option<String>)
    ensures
        forall|t: Seq<char>, rest: Seq<u8>|
            bytes@ == #[trigger] (spec_string_block(t) + rest) && rest.len() == tail ==> (
            r matches Some(s) && s@ == t),
        r is Some ==> bytes@.len() >= 8 + tail,
{
    proof {
        lemma_auto_spec_u64_to_from_le_bytes();
        broadcast use vstd::utf8::encode_utf8_valid_utf8;
        broadcast use vstd::utf8::encode_utf8_decode_utf8;

    }
    let blen = bytes.len();
    if blen < 8 {
        return None;
    }
    if tail > blen - 8 {
        return None;
    }
    let avail = blen - 8 - tail;
    let len0 = u64_from_le_bytes(slice_subrange(bytes, 0, 8));
    if len0 != avail as u64 {
        proof {
            assert forall|t: Seq<char>, rest: Seq<u8>|
                !(bytes@ == #[trigger] (spec_string_block(t) + rest) && rest.len()
                    == tail) by {
                if bytes@ == spec_string_block(t) + rest && rest.len() == tail {
                    let e = encode_utf8(t);
                    assert(bytes@.len() == 8 + e.len() + tail);
                    assert(e.len() == avail);
                    assert(bytes@.subrange(0, 8) =~= spec_u64_to_le_bytes(e.len() as u64));
                    assert(len0 == avail as u64);
                }
            }
        }
        return None;
    }
    let nb = slice_to_vec(slice_subrange(bytes, 8, 8 + avail));
    let r = utf8_to_string(nb);
    proof {
        assert forall|t: Seq<char>, rest: Seq<u8>|
            bytes@ == #[trigger] (spec_string_block(t) + rest) && rest.len() == tail implies (
        r matches Some(s) && s@ == t) by {
            let e = encode_utf8(t);
            assert(bytes@.len() == 8 + e.len() + tail);
            assert(e.len() == avail);
            assert(nb@ =~= e);
            assert(valid_utf8(e));
            assert(decode_utf8(e) == t);
        }
    }
    r
}

} // verus!
