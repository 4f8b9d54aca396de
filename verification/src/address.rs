//! Account addresses: 32-byte public keys whose column text is the
//! canonical base32 encoding with a checksum.
//!
//! The encoding and its checksum are computed by the `algonaut` crates and
//! are trusted at this boundary; everything around the calls is verified.

use vstd::prelude::*;

use crate::errors::DaoError;

verus! {

/// The canonical checksummed base32 text of a 32-byte account key, as
/// `algonaut_core::Address` prints it.  A function of the key bytes alone.
pub uninterp spec fn address_text_of(b: Seq<u8>) -> Seq<char>;

/// The 32-byte account address that owns a compiled program, as
/// `algonaut_transaction`'s contract accounts derive it.  A function of the
/// program bytes alone.
pub uninterp spec fn program_address_of(p: Seq<u8>) -> Seq<u8>;

/// An account address: a 32-byte public key.
#[derive(Clone, PartialEq, Eq, Debug)]
pub struct Address {
    bytes: Vec<u8>,
}

impl View for Address {
    type V = Seq<u8>;

    closed spec fn view(&self) -> Seq<u8> {
        self.bytes@
    }
}

impl Address {
    /// Well-formed addresses hold exactly 32 bytes.
    pub open spec fn wf(&self) -> bool {
        self@.len() == 32
    }

    /// Wraps 32 raw key bytes; any other count violates the shape.
    pub fn from_bytes(bytes: Vec<u8>) -> (r: Result<Address, DaoError>)
        ensures
            match r {
                Ok(a) => a.wf() && a@ == bytes@,
                Err(e) => e == DaoError::ValidationError && bytes@.len() != 32,
            },
    {
        if bytes.len() == 32 {
            Ok(Address { bytes })
        } else {
            Err(DaoError::ValidationError)
        }
    }

    /// The raw key bytes.
    pub fn bytes(&self) -> (r: &Vec<u8>)
        ensures
            r@ == self@,
    {
        &self.bytes
    }

    /// An owned copy of the same address.
    pub fn duplicate(&self) -> (r: Address)
        ensures
            r@ == self@,
            self.wf() ==> r.wf(),
    {
        let mut bytes: Vec<u8> = Vec::new();
        let mut i: usize = 0;
        while i < self.bytes.len()
            invariant
                0 <= i <= self.bytes.len(),
                bytes@ =~= self.bytes@.take(i as int),
            decreases self.bytes.len() - i,
        {
            bytes.push(self.bytes[i]);
            i = i + 1;
        }
        proof {
            assert(bytes@ =~= self.bytes@);
        }
        Address { bytes }
    }

    /// Encodes the address as its canonical column text.
    pub fn to_text(&self) -> (r: String)
        requires
            self.wf(),
        ensures
            r@ == address_text_of(self@),
    {
        address_encode(&self.bytes)
    }

    /// Decodes a column.  The canonical text of any 32-byte key decodes to
    /// exactly those bytes; text that the checksummed encoding refuses is a
    /// malformed stored scalar.
    pub fn from_text(s: &str) -> (r: Result<Address, DaoError>)
        ensures
            match r {
                Ok(a) => a.wf(),
                Err(e) => e == DaoError::EncodingFailure,
            },
            forall|b: Seq<u8>| (b.len() == 32 && s@ == address_text_of(b)) ==> (r matches Ok(a)
                && a@ == b),
    {
        match address_decode(s) {
            Some(bytes) => Ok(Address { bytes }),
            None => Err(DaoError::EncodingFailure),
        }
    }
}

/// Decodes an address column, surfacing the library's error taxonomy.
pub fn get_address(s: &str) -> (r: Result<Address, DaoError>)
    ensures
        match r {
            Ok(a) => a.wf(),
            Err(e) => e == DaoError::EncodingFailure,
        },
        forall|b: Seq<u8>| (b.len() == 32 && s@ == address_text_of(b)) ==> (r matches Ok(a) && a@
            == b),
{
    Address::from_text(s)
}

/// Relies on `algonaut_core::Address`'s `Display` impl: the printed text is
/// the checksummed base32 encoding, a function of the 32 key bytes alone.
#[verifier::external_body]
fn address_encode(bytes: &Vec<u8>) -> (r: String)
    requires
        bytes@.len() == 32,
    ensures
        r@ == address_text_of(bytes@),
{
    let mut key = [0u8; 32];
    key.copy_from_slice(bytes.as_slice());
    algonaut_core::Address::new(key).to_string()
}

/// Relies on `algonaut_core::Address::from_str`, which inverts the
/// `Display` encoding: the canonical text of any 32-byte key decodes back
/// to those bytes, and every decoded address holds 32 bytes.
#[verifier::external_body]
fn address_decode(s: &str) -> (r: Option<Vec<u8>>)
    ensures
        (match r {
            Some(v) => v@.len() == 32 && forall|b: Seq<u8>|
                (b.len() == 32 && s@ == address_text_of(b)) ==> v@ == b,
            None => forall|b: Seq<u8>| !(b.len() == 32 && s@ == address_text_of(b)),
        }),
{
    match s.parse::<algonaut_core::Address>() {
        Ok(a) => Some(a.0.to_vec()),
        Err(_) => None,
    }
}

/// Relies on `algonaut_transaction`'s `ContractAccount::new`: the escrow
/// address is the hash of the compiled program, a function of the program
/// bytes alone, and an address holds 32 bytes.
#[verifier::external_body]
pub(crate) fn derive_program_address(program: &Vec<u8>) -> (r: Vec<u8>)
    ensures
        r@ == program_address_of(program@),
        r@.len() == 32,
{
    let teal = algonaut_core::CompiledTeal(program.clone());
    let account = algonaut::transaction::contract_account::ContractAccount::new(teal);
    account.address().0.to_vec()
}

} // verus!
