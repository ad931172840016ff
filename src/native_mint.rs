//! The mint of wrapped native currency.

use vstd::prelude::*;

use crate::pubkey::Pubkey;

verus! {

/// Bytes of the address of the native mint,
/// `So11111111111111111111111111111111111111112`.
pub const NATIVE_MINT_BYTES: [u8; 32] = [
    6, 155, 136, 87, 254, 171, 129, 132, 251, 104, 127, 99, 70, 24, 192, 53,
    218, 196, 57, 220, 26, 235, 59, 85, 152, 160, 240, 0, 0, 0, 0, 1,
];

/// The native mint's address.
pub open spec fn spec_id() -> Seq<u8> {
    NATIVE_MINT_BYTES@
}

/// The native mint's address.
pub fn id() -> (r: Pubkey)
    ensures
        r@ == spec_id(),
{
    Pubkey::new_from_array(NATIVE_MINT_BYTES)
}

} // verus!
