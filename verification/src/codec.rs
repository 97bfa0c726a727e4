//! The wire-level container format: an ordered sequence of
//! `(type tag, payload)` pairs, encoded with bincode's standard
//! configuration into one self-delimiting byte stream.

use vstd::prelude::*;

use crate::error::Error;

verus! {

/// The byte stream bincode's standard configuration produces for an
/// ordered list of `(tag, payload)` pairs. The encoding is a function of
/// the pairs alone; it is left abstract here, and the two calls below are
/// specified against it: the encoder produces exactly this stream, and the
/// decoder inverts it.
pub uninterp spec fn container_encoding(entries: Seq<(Seq<char>, Seq<u8>)>) -> Seq<u8>;

/// The abstract contents of a concrete entry list.
pub open spec fn entries_view(entries: Seq<(String, Vec<u8>)>) -> Seq<(Seq<char>, Seq<u8>)> {
    entries.map_values(|p: (String, Vec<u8>)| (p.0@, p.1@))
}

/// Relies on `bincode::encode_to_vec` under `bincode::config::standard()`:
/// the encoding of a vector of `(String, Vec<u8>)` pairs depends on the
/// pairs alone, and encoding this type into a fresh vector cannot fail
/// (bincode's vector writer accepts every write), so the unreachable
/// failure arm is never taken.
#[verifier::external_body]
pub(crate) fn encode_container(entries: &Vec<(String, Vec<u8>)>) -> (r: Vec<u8>)
    ensures
        r@ == container_encoding(entries_view(entries@)),
{
    match bincode::encode_to_vec(entries, bincode::config::standard()) {
        Ok(v) => v,
        Err(_) => Vec::new(),
    }
}

/// Relies on `bincode::decode_from_slice` under
/// `bincode::config::standard()`: decoding inverts encoding, so a slice
/// that is exactly the encoding of some entry list decodes back to that
/// list; any reported failure is mapped to a framing error.
#[verifier::external_body]
pub(crate) fn decode_container(bytes: &[u8]) -> (r: Result<Vec<(String, Vec<u8>)>, Error>)
    ensures
        r is Ok <== exists|es: Seq<(Seq<char>, Seq<u8>)>| bytes@ == container_encoding(es),
        r matches Ok(v) ==> forall|es: Seq<(Seq<char>, Seq<u8>)>|
            bytes@ == container_encoding(es) ==> entries_view(v@) == es,
        r matches Err(e) ==> e is Deserialization,
{
    match bincode::decode_from_slice::<Vec<(String, Vec<u8>)>, _>(
        bytes,
        bincode::config::standard(),
    ) {
        Ok((entries, _)) => Ok(entries),
        Err(e) => Err(
            Error::Deserialization(format!("failed to decode the asset container: {}", e)),
        ),
    }
}

} // verus!
