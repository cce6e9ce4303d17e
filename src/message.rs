use vstd::prelude::*;

verus! {

/// Lower-case hexadecimal digit of `n`, for `n < 16`.
pub open spec fn hex_digit(n: int) -> char {
    seq!['0', '1', '2', '3', '4', '5', '6', '7', '8', '9', 'a', 'b', 'c', 'd', 'e', 'f'][n]
}

/// Two lower-case hexadecimal digits per byte, high half first.
pub open spec fn hex_of(b: Seq<u8>) -> Seq<char>
    decreases b.len(),
{
    if b.len() == 0 {
        seq![]
    } else {
        hex_of(b.drop_last()) + seq![hex_digit(b.last() as int / 16), hex_digit(b.last() as int % 16)]
    }
}

/// Relies on hex::encode: each byte becomes two lower-case hexadecimal digits, high half first.
#[verifier::external_body]
fn encode_hex(bytes: &Vec<u8>) -> (r: String)
    ensures
        r@ == hex_of(bytes@),
{
    hex::encode(bytes)
}

/// Errors of signing an arbitrary message.
#[derive(Debug, Clone, Copy, PartialEq, Eq, Structural)]
pub enum SignArbitraryMessageError {
    /// The destination's signature could not be checked or made.
    DestinationSigError,
    /// AnyoneCanSpend should not use standard signatures.
    AttemptedToProduceSignatureForAnyoneCanSpend,
    /// Classical multisig signature attempted in uni-party function.
    AttemptedToProduceClassicalMultisigSignatureInUnipartySignatureCode,
    /// Unsupported yet.
    Unsupported,
}

/// A signature over an arbitrary message, as raw bytes.
#[derive(Debug, Clone, PartialEq, Eq)]
pub struct SignedArbitraryMessage {
    raw_signature: Vec<u8>,
}

impl SignedArbitraryMessage {
    pub closed spec fn raw(&self) -> Seq<u8> {
        self.raw_signature@
    }

    pub fn from_data(raw_signature: Vec<u8>) -> (r: SignedArbitraryMessage)
        ensures
            r.raw() == raw_signature@,
    {
        SignedArbitraryMessage { raw_signature }
    }

    /// The signature in lower-case hexadecimal.
    pub fn to_hex(self) -> (r: String)
        ensures
            r@ == hex_of(self.raw()),
    {
        encode_hex(&self.raw_signature)
    }
}

} // verus!
