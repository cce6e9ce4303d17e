use vstd::prelude::*;
use crate::tokens::{Destination, OutPoint, Transaction, TxOutput};

verus! {

/// Why a transaction input's signature was refused.
#[derive(Debug, Clone, Copy, PartialEq, Eq, Structural)]
pub enum TransactionSigError {
    /// Invalid input index was provided (provided, available).
    InvalidInputIndex(usize, usize),
    /// Invalid signature index was provided (provided, available).
    InvalidSignatureIndex(usize, usize),
    /// Attempted to verify signatures for a transaction without inputs.
    SignatureVerificationWithoutInputs,
    /// Attempted to verify signatures for a transaction without signatures.
    SignatureVerificationWithoutSigs,
    /// No signature.
    SignatureNotFound,
    /// Signature verification failed.
    SignatureVerificationFailed,
    /// Unsupported yet.
    Unsupported,
}

/// A signature made with one key, with the sighash type that says what it covers.
#[derive(Debug, Clone, PartialEq, Eq)]
pub struct StandardInputSignature {
    pub sighash_type: u8,
    pub raw_signature: Vec<u8>,
}

/// What an input carries to prove it may spend its output.
#[derive(Debug, Clone, PartialEq, Eq)]
pub enum InputWitness {
    NoSignature(Option<Vec<u8>>),
    Standard(StandardInputSignature),
}

/// A transaction together with one witness per input.
#[derive(Debug, Clone, PartialEq, Eq)]
pub struct SignedTransaction {
    pub transaction: Transaction,
    pub signatures: Vec<InputWitness>,
}

/// The parts of a transaction a signature commits to.
pub trait Signable {
    spec fn inputs_view(&self) -> Option<Seq<OutPoint>>;

    fn inputs(&self) -> (r: Option<&[OutPoint]>)
        ensures
            r.is_some() == self.inputs_view().is_some(),
            r.is_some() ==> r.unwrap()@ == self.inputs_view().unwrap(),
    ;

    fn outputs(&self) -> Option<&[TxOutput]>;

    fn version_byte(&self) -> Option<u8>;

    fn lock_time(&self) -> Option<u32>;

    fn flags(&self) -> Option<u32>;
}

/// A signable item that also carries its input witnesses.
pub trait Transactable: Signable {
    spec fn signatures_view(&self) -> Option<Seq<InputWitness>>;

    fn signatures(&self) -> (r: Option<&[InputWitness]>)
        ensures
            r.is_some() == self.signatures_view().is_some(),
            r.is_some() ==> r.unwrap()@ == self.signatures_view().unwrap(),
    ;
}

impl Signable for Transaction {
    open spec fn inputs_view(&self) -> Option<Seq<OutPoint>> {
        Some(self.inputs@)
    }

    fn inputs(&self) -> (r: Option<&[OutPoint]>) {
        Some(self.inputs.as_slice())
    }

    fn outputs(&self) -> Option<&[TxOutput]> {
        Some(self.outputs.as_slice())
    }

    fn version_byte(&self) -> Option<u8> {
        Some(self.version_byte)
    }

    fn lock_time(&self) -> Option<u32> {
        Some(self.lock_time)
    }

    fn flags(&self) -> Option<u32> {
        Some(self.flags)
    }
}

impl Signable for SignedTransaction {
    open spec fn inputs_view(&self) -> Option<Seq<OutPoint>> {
        Some(self.transaction.inputs@)
    }

    fn inputs(&self) -> (r: Option<&[OutPoint]>) {
        Some(self.transaction.inputs.as_slice())
    }

    fn outputs(&self) -> Option<&[TxOutput]> {
        Some(self.transaction.outputs.as_slice())
    }

    fn version_byte(&self) -> Option<u8> {
        Some(self.transaction.version_byte)
    }

    fn lock_time(&self) -> Option<u32> {
        Some(self.transaction.lock_time)
    }

    fn flags(&self) -> Option<u32> {
        Some(self.transaction.flags)
    }
}

impl Transactable for SignedTransaction {
    open spec fn signatures_view(&self) -> Option<Seq<InputWitness>> {
        Some(self.signatures@)
    }

    fn signatures(&self) -> (r: Option<&[InputWitness]>) {
        Some(self.signatures.as_slice())
    }
}

/// Checks the witness of input `input_num` of `tx` against the destination of the output it
/// spends. A missing witness is accepted only for `AnyoneCanSpend`. For a standard signature,
/// `standard_check` is the outcome of checking it cryptographically over the input's
/// signature hash, and is returned as it is.
pub fn verify_signature<T: Transactable>(
    outpoint_destination: &Destination,
    tx: &T,
    input_num: usize,
    standard_check: Result<(), TransactionSigError>,
) -> (r: Result<(), TransactionSigError>)
    ensures
        tx.inputs_view().is_none() ==> r == Err::<(), TransactionSigError>(
            TransactionSigError::SignatureVerificationWithoutInputs,
        ),
        tx.inputs_view().is_some() && tx.signatures_view().is_none() ==> r == Err::<
            (),
            TransactionSigError,
        >(TransactionSigError::SignatureVerificationWithoutSigs),
        tx.inputs_view().is_some() && tx.signatures_view().is_some() ==> {
            let ins = tx.inputs_view().unwrap();
            let sigs = tx.signatures_view().unwrap();
            if input_num >= sigs.len() {
                r == Err::<(), TransactionSigError>(
                    TransactionSigError::InvalidSignatureIndex(input_num, ins.len() as usize),
                )
            } else {
                match sigs[input_num as int] {
                    InputWitness::NoSignature(_) => match outpoint_destination {
                        Destination::AnyoneCanSpend => r == Ok::<(), TransactionSigError>(()),
                        _ => r == Err::<(), TransactionSigError>(
                            TransactionSigError::SignatureNotFound,
                        ),
                    },
                    InputWitness::Standard(_) => r == standard_check,
                }
            }
        },
{
    let inputs = match tx.inputs() {
        Some(i) => i,
        None => {
            return Err(TransactionSigError::SignatureVerificationWithoutInputs);
        },
    };
    let sigs = match tx.signatures() {
        Some(s) => s,
        None => {
            return Err(TransactionSigError::SignatureVerificationWithoutSigs);
        },
    };
    if input_num >= sigs.len() {
        return Err(TransactionSigError::InvalidSignatureIndex(input_num, inputs.len()));
    }
    match &sigs[input_num] {
        InputWitness::NoSignature(_) => match outpoint_destination {
            Destination::AnyoneCanSpend => Ok(()),
            _ => Err(TransactionSigError::SignatureNotFound),
        },
        InputWitness::Standard(_) => standard_check,
    }
}

} // verus!
