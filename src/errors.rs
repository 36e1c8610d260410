use vstd::prelude::*;

verus! {

/// Every way in which an instruction of the program can fail.
#[derive(Clone, Copy, Debug, PartialEq, Eq, Structural)]
pub enum LuckSnakeError {
    /// The payer cannot cover the price of a number.
    InsufficientPayment,
    /// The global issuance cap has been reached.
    AllNumbersGenerated,
    /// Every probed number is already held by the participant.
    UnableToGenerateUniqueNumber,
    /// A number outside the domain was given.
    InvalidNumberRange,
    /// The treasury holds nothing to withdraw.
    NoFundsToWithdraw,
    /// The number is already held by someone.
    NumberAlreadyGenerated,
    /// The caller is not the identity that the operation is bound to.
    Unauthorized,
    /// The participant's record cannot take another number.
    UserAccountFull,
}

} // verus!
