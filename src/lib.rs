//! A minimal fungible-token ledger: binary-encoded mint and token-account
//! records, and a processor that applies instructions to them.
//!
//! Every handler of the processor is verified against an exact outcome
//! function: on success the accounts end up as that function says, and on
//! failure every account is left as it was.

pub mod account_info;
pub mod error;
pub mod instruction;
pub mod native_mint;
pub mod processor;
pub mod pubkey;
pub mod state;
pub mod invariants;

use vstd::prelude::*;

use crate::account_info::AccountInfo;
use crate::error::ProgramError;
use crate::pubkey::Pubkey;

verus! {

/// Bytes of the address under which this program is deployed,
/// `TokenkegQfeZyiNwAJbNbGKPFXCWuBvf9Ss623VQ5DA`.
pub const PROGRAM_ID_BYTES: [u8; 32] = [
    6, 221, 246, 225, 215, 101, 161, 147, 217, 203, 225, 70, 206, 235, 121, 172,
    28, 180, 133, 237, 95, 91, 55, 145, 58, 140, 245, 133, 126, 255, 0, 169,
];

/// The program's address.
pub open spec fn spec_id() -> Seq<u8> {
    PROGRAM_ID_BYTES@
}

/// The program's address.
pub fn id() -> (r: Pubkey)
    ensures
        r@ == spec_id(),
{
    Pubkey::new_from_array(PROGRAM_ID_BYTES)
}

/// Whether `account` is the program's address.
pub fn check_id(account: &Pubkey) -> (r: bool)
    ensures
        r == (account@ == spec_id()),
{
    let program = id();
    account.equals(&program)
}

/// Checks that the account is held by this program.
pub fn check_program_account(account: &AccountInfo) -> (r: Result<(), ProgramError>)
    ensures
        r is Ok <==> account.owner@ == spec_id(),
        r is Err ==> r == Err::<(), ProgramError>(ProgramError::IncorrectProgramId),
{
    if !check_id(&account.owner) {
        Err(ProgramError::IncorrectProgramId)
    } else {
        Ok(())
    }
}

} // verus!
