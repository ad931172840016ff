//! Errors of the token program.

use vstd::prelude::*;

verus! {

/// Errors that the token program's own rules raise.
#[derive(Clone, Copy, Debug, PartialEq, Eq, Structural)]
pub enum TokenError {
    /// Account or mint already initialized.
    AlreadyInitialized,
    /// Account or mint not initialized.
    NotInitialized,
    /// Insufficient funds for the operation requested.
    InsufficientFunds,
    /// Invalid mint.
    InvalidMint,
    /// Account not associated with this mint.
    MintMismatch,
    /// Owner does not match.
    InvalidOwner,
    /// Operation overflowed.
    Overflow,
    /// Lamport balance below the rent-exempt threshold.
    NotRentExempt,
    /// Invalid instruction.
    InvalidInstruction,
    /// State does not allow the operation.
    InvalidState,
    /// Operation not supported for this kind of account.
    NonNativeNotSupported,
    /// Account is frozen.
    AccountFrozen,
    /// The mint cannot freeze accounts.
    MintCannotFreeze,
}

/// The numeric code of each token error, in declaration order.
pub open spec fn spec_error_code(e: TokenError) -> u32 {
    match e {
        TokenError::AlreadyInitialized => 0,
        TokenError::NotInitialized => 1,
        TokenError::InsufficientFunds => 2,
        TokenError::InvalidMint => 3,
        TokenError::MintMismatch => 4,
        TokenError::InvalidOwner => 5,
        TokenError::Overflow => 6,
        TokenError::NotRentExempt => 7,
        TokenError::InvalidInstruction => 8,
        TokenError::InvalidState => 9,
        TokenError::NonNativeNotSupported => 10,
        TokenError::AccountFrozen => 11,
        TokenError::MintCannotFreeze => 12,
    }
}

impl TokenError {
    /// The error's numeric code, as reported at the program boundary.
    pub fn code(&self) -> (r: u32)
        ensures
            r == spec_error_code(*self),
    {
        match self {
            TokenError::AlreadyInitialized => 0,
            TokenError::NotInitialized => 1,
            TokenError::InsufficientFunds => 2,
            TokenError::InvalidMint => 3,
            TokenError::MintMismatch => 4,
            TokenError::InvalidOwner => 5,
            TokenError::Overflow => 6,
            TokenError::NotRentExempt => 7,
            TokenError::InvalidInstruction => 8,
            TokenError::InvalidState => 9,
            TokenError::NonNativeNotSupported => 10,
            TokenError::AccountFrozen => 11,
            TokenError::MintCannotFreeze => 12,
        }
    }

    /// The error with the given code, if there is one.
    pub fn from_code(code: u32) -> (r: Option<TokenError>)
        ensures
            r matches Some(e) ==> spec_error_code(e) == code,
            r is None <==> code > 12,
    {
        match code {
            0 => Some(TokenError::AlreadyInitialized),
            1 => Some(TokenError::NotInitialized),
            2 => Some(TokenError::InsufficientFunds),
            3 => Some(TokenError::InvalidMint),
            4 => Some(TokenError::MintMismatch),
            5 => Some(TokenError::InvalidOwner),
            6 => Some(TokenError::Overflow),
            7 => Some(TokenError::NotRentExempt),
            8 => Some(TokenError::InvalidInstruction),
            9 => Some(TokenError::InvalidState),
            10 => Some(TokenError::NonNativeNotSupported),
            11 => Some(TokenError::AccountFrozen),
            12 => Some(TokenError::MintCannotFreeze),
            _ => None,
        }
    }

    /// A message that describes the error.
    pub fn to_str(&self) -> (r: &'static str)
        ensures
            r@ == spec_error_message(*self),
    {
        match self {
            TokenError::AlreadyInitialized => "Error: Already initialized",
            TokenError::NotInitialized => "Error: Not initialized",
            TokenError::InsufficientFunds => "Error: Insufficient funds",
            TokenError::InvalidMint => "Error: Invalid Mint",
            TokenError::MintMismatch => "Error: Mint mismatch",
            TokenError::InvalidOwner => "Error: Invalid owner",
            TokenError::Overflow => "Error: Overflow",
            TokenError::NotRentExempt => "Error: Not rent exempt",
            TokenError::InvalidInstruction => "Error: Invalid instruction",
            TokenError::InvalidState => "Error: Invalid state",
            TokenError::NonNativeNotSupported => "Error: Non-native account not supported",
            TokenError::AccountFrozen => "Error: Account is frozen",
            TokenError::MintCannotFreeze => "Error: Mint cannot freeze accounts",
        }
    }
}

/// The message of each token error.
pub open spec fn spec_error_message(e: TokenError) -> Seq<char> {
    match e {
        TokenError::AlreadyInitialized => "Error: Already initialized"@,
        TokenError::NotInitialized => "Error: Not initialized"@,
        TokenError::InsufficientFunds => "Error: Insufficient funds"@,
        TokenError::InvalidMint => "Error: Invalid Mint"@,
        TokenError::MintMismatch => "Error: Mint mismatch"@,
        TokenError::InvalidOwner => "Error: Invalid owner"@,
        TokenError::Overflow => "Error: Overflow"@,
        TokenError::NotRentExempt => "Error: Not rent exempt"@,
        TokenError::InvalidInstruction => "Error: Invalid instruction"@,
        TokenError::InvalidState => "Error: Invalid state"@,
        TokenError::NonNativeNotSupported => "Error: Non-native account not supported"@,
        TokenError::AccountFrozen => "Error: Account is frozen"@,
        TokenError::MintCannotFreeze => "Error: Mint cannot freeze accounts"@,
    }
}

/// Errors of a program invocation: the token program's own, and those of
/// the boundary (malformed account data or instruction data, wrong account
/// holder, missing accounts).
#[derive(Clone, Copy, Debug, PartialEq, Eq, Structural)]
pub enum ProgramError {
    /// An error of the token program's rules.
    Custom(TokenError),
    /// Account data was malformed or of the wrong length.
    InvalidAccountData,
    /// Instruction data was malformed.
    InvalidInstructionData,
    /// An account is not held by this program.
    IncorrectProgramId,
    /// Fewer accounts were supplied than the instruction needs.
    NotEnoughAccountKeys,
    /// A record was read as initialized but is not.
    UninitializedAccount,
}

impl From<TokenError> for ProgramError {
    fn from(e: TokenError) -> (r: ProgramError) {
        ProgramError::Custom(e)
    }
}

impl vstd::std_specs::convert::FromSpecImpl<TokenError> for ProgramError {
    open spec fn obeys_from_spec() -> bool {
        true
    }

    open spec fn from_spec(e: TokenError) -> ProgramError {
        ProgramError::Custom(e)
    }
}

} // verus!
