//! Compiled escrow programs: opaque binary blobs stored as text-safe
//! base64 columns.
//!
//! The base64 alphabet and padding are computed by `data_encoding` and are
//! trusted at this boundary; everything around the calls is verified.

use vstd::prelude::*;

use crate::errors::DaoError;

verus! {

/// The RFC 4648 padded base64 text of a byte string, as
/// `data_encoding::BASE64` produces it.  A function of the bytes alone.
pub uninterp spec fn base64_of(b: Seq<u8>) -> Seq<char>;

/// A compiled escrow program: opaque, variable-length, semantically
/// immutable once created.  Stored and retrieved verbatim, never
/// interpreted.
#[derive(Clone, PartialEq, Eq, Debug)]
pub struct CompiledProgram {
    pub bytes: Vec<u8>,
}

impl View for CompiledProgram {
    type V = Seq<u8>;

    open spec fn view(&self) -> Seq<u8> {
        self.bytes@
    }
}

impl CompiledProgram {
    /// Wraps raw program bytes; every byte string is a valid program blob.
    pub fn new(bytes: Vec<u8>) -> (r: CompiledProgram)
        ensures
            r@ == bytes@,
    {
        CompiledProgram { bytes }
    }

    /// Encodes the program as its base64 column text.
    pub fn to_column(&self) -> (r: String)
        ensures
            r@ == base64_of(self@),
    {
        base64_encode(&self.bytes)
    }
}

/// Decodes a program column.  The base64 text of any byte string decodes
/// back to those bytes; text the decoder refuses is a malformed stored
/// scalar.
pub fn get_bytes(s: &str) -> (r: Result<CompiledProgram, DaoError>)
    ensures
        match r {
            Ok(_) => true,
            Err(e) => e == DaoError::EncodingFailure,
        },
        forall|b: Seq<u8>| s@ == base64_of(b) ==> (r matches Ok(p) && p@ == b),
{
    match base64_decode(s) {
        Some(bytes) => Ok(CompiledProgram { bytes }),
        None => Err(DaoError::EncodingFailure),
    }
}

/// Relies on `data_encoding::BASE64.encode` (RFC 4648, padded): the
/// encoding is a function of the input bytes alone.
#[verifier::external_body]
fn base64_encode(b: &Vec<u8>) -> (r: String)
    ensures
        r@ == base64_of(b@),
{
    data_encoding::BASE64.encode(b.as_slice())
}

/// Relies on `data_encoding::BASE64.decode`, which inverts
/// `BASE64.encode`: the encoding of any byte string decodes back to those
/// bytes.
#[verifier::external_body]
fn base64_decode(s: &str) -> (r: Option<Vec<u8>>)
    ensures
        (match r {
            Some(v) => forall|b: Seq<u8>| s@ == base64_of(b) ==> v@ == b,
            None => forall|b: Seq<u8>| s@ != base64_of(b),
        }),
{
    data_encoding::BASE64.decode(s.as_bytes()).ok()
}

} // verus!
