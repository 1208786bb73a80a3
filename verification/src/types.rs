use vstd::prelude::*;

verus! {

/// Amount of tokens, in yoctoNEAR.
pub type Balance = u128;

/// Amount of gas attached to a function call.
pub type Gas = u64;

/// Index of a promise within the promises created during one contract call.
pub type PromiseIndex = u64;

/// Name of an account.
pub type AccountId = String;

/// Serialized public key of an access key.
pub type PublicKey = Vec<u8>;

/// This type indicates that the promise will not return any bytes.
pub type NoReturn = ();

/// Weight of unused gas to be distributed to a function call.
#[derive(Debug, Clone, Copy, PartialEq, Eq, Structural)]
pub struct GasWeight(pub u64);

} // verus!
