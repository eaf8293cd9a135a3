use vstd::prelude::*;

verus! {

/// Why a registry operation was refused. Every operation either completes in
/// full or returns one of these reasons and leaves the stored state untouched.
#[derive(Clone, Copy, Debug, PartialEq, Eq, Structural)]
pub enum CertError {
    /// The caller is not the contract owner.
    Unauthorized,
    /// The operation is switched off by a contract-wide policy flag.
    FeatureDisabled,
    /// The attached confirmation deposit is not exactly one indivisible unit.
    PaymentMismatch,
    /// The referenced token does not exist in the ledger.
    NotFound,
    /// A stored payload is not a well-formed encoding: an integrity fault,
    /// not an ordinary lookup miss.
    CodecError,
    /// A withdrawal asked for more than the storage margin allows.
    InsufficientBalance,
    /// A migration ran against state that is already in the current shape.
    SchemaError,
    /// The ledger refused a mint because the token identifier is already taken.
    TokenIdTaken,
}

} // verus!
