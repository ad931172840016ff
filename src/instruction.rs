//! Instructions and their wire format: a tag byte, then a payload whose
//! shape the tag fixes.
//!
//! | tag | instruction       | payload                                      |
//! |-----|-------------------|----------------------------------------------|
//! | 0   | InitializeMint    | decimals, mint authority, optional freeze key |
//! | 1   | InitializeAccount |                                              |
//! | 2   | Approve           | amount                                       |
//! | 3   | Transfer          | amount                                       |
//! | 5   | Revoke            |                                              |
//! | 6   | SetAuthority      | authority type, optional new key             |
//! | 7   | MintTo            | amount                                       |
//! | 8   | Burn              | amount                                       |
//! | 9   | SyncNative        |                                              |
//! | 10  | CloseAccount      |                                              |
//! | 11  | FreezeAccount     |                                              |
//! | 12  | TransferChecked   | amount, decimals                             |
//! | 13  | ThawAccount       |                                              |
//!
//! Amounts are eight bytes little-endian; an optional key is a byte `0`, or
//! a byte `1` followed by the 32 bytes of the key.

use vstd::bytes::*;
use vstd::prelude::*;
use vstd::slice::*;

use crate::error::{ProgramError, TokenError};
use crate::pubkey::{Pubkey, PUBKEY_BYTES};
use crate::state::{key_option_view, key_option_wf, push_key, push_u64};

verus! {

/// The kinds of authority that SetAuthority can change.
#[derive(Debug, Clone, Copy, PartialEq, Eq, Structural)]
pub enum AuthorityType {
    /// Authority to mint new tokens (of a mint).
    MintTokens,
    /// Authority to freeze accounts (of a mint).
    FreezeAccount,
    /// Owner of a token account.
    AccountOwner,
    /// Authority to close a token account.
    CloseAccount,
}

/// The authority type that a byte names, if it names one.
pub open spec fn spec_authority_type(b: u8) -> Option<AuthorityType> {
    if b == 0 {
        Some(AuthorityType::MintTokens)
    } else if b == 1 {
        Some(AuthorityType::FreezeAccount)
    } else if b == 2 {
        Some(AuthorityType::AccountOwner)
    } else if b == 3 {
        Some(AuthorityType::CloseAccount)
    } else {
        None
    }
}

/// The error of malformed instruction data.
pub open spec fn invalid_instruction() -> ProgramError {
    ProgramError::Custom(TokenError::InvalidInstruction)
}

impl AuthorityType {
    /// The authority type with the given byte.
    pub fn from_u8(value: u8) -> (r: Result<Self, ProgramError>)
        ensures
            match spec_authority_type(value) {
                Some(t) => r == Ok::<Self, ProgramError>(t),
                None => r == Err::<Self, ProgramError>(invalid_instruction()),
            },
    {
        match value {
            0 => Ok(AuthorityType::MintTokens),
            1 => Ok(AuthorityType::FreezeAccount),
            2 => Ok(AuthorityType::AccountOwner),
            3 => Ok(AuthorityType::CloseAccount),
            _ => Err(TokenError::InvalidInstruction.into()),
        }
    }
}

/// Instructions of the token program.
#[derive(Debug, Clone, Copy, PartialEq)]
pub enum TokenInstruction {
    /// Initializes a mint.
    InitializeMint {
        /// Number of base 10 digits to the right of the decimal place.
        decimals: u8,
        /// Authority that may mint new tokens.
        mint_authority: Pubkey,
        /// Authority that may freeze accounts, if any.
        freeze_authority: Option<Pubkey>,
    },
    /// Initializes a token account.
    InitializeAccount,
    /// Moves tokens between accounts.
    Transfer {
        /// Amount to move.
        amount: u64,
    },
    /// Moves tokens between accounts, checking the mint's decimals.
    TransferChecked {
        /// Amount to move.
        amount: u64,
        /// The decimals that the mint must have.
        decimals: u8,
    },
    /// Lets a delegate move tokens of an account.
    Approve {
        /// Amount the delegate may move.
        amount: u64,
    },
    /// Takes the delegate's permission back.
    Revoke,
    /// Creates tokens in an account.
    MintTo {
        /// Amount to create.
        amount: u64,
    },
    /// Destroys tokens of an account.
    Burn {
        /// Amount to destroy.
        amount: u64,
    },
    /// Closes an account and moves its lamports away.
    CloseAccount,
    /// Freezes an account.
    FreezeAccount,
    /// Thaws a frozen account.
    ThawAccount,
    /// Brings a native account's balance in line with its lamports.
    SyncNative,
    /// Changes an authority of a mint or an account.
    SetAuthority {
        /// The authority to change.
        authority_type: AuthorityType,
        /// The new authority; `None` disables it.
        new_authority: Option<Pubkey>,
    },
}

/// The model of an instruction, with keys as byte sequences.
pub enum InstructionModel {
    InitializeMint {
        decimals: u8,
        mint_authority: Seq<u8>,
        freeze_authority: Option<Seq<u8>>,
    },
    InitializeAccount,
    Transfer { amount: u64 },
    TransferChecked { amount: u64, decimals: u8 },
    Approve { amount: u64 },
    Revoke,
    MintTo { amount: u64 },
    Burn { amount: u64 },
    CloseAccount,
    FreezeAccount,
    ThawAccount,
    SyncNative,
    SetAuthority { authority_type: AuthorityType, new_authority: Option<Seq<u8>> },
}

impl View for TokenInstruction {
    type V = InstructionModel;

    open spec fn view(&self) -> InstructionModel {
        match *self {
            TokenInstruction::InitializeMint { decimals, mint_authority, freeze_authority } =>
                InstructionModel::InitializeMint {
                decimals,
                mint_authority: mint_authority@,
                freeze_authority: key_option_view(freeze_authority),
            },
            TokenInstruction::InitializeAccount => InstructionModel::InitializeAccount,
            TokenInstruction::Transfer { amount } => InstructionModel::Transfer { amount },
            TokenInstruction::TransferChecked { amount, decimals } =>
                InstructionModel::TransferChecked { amount, decimals },
            TokenInstruction::Approve { amount } => InstructionModel::Approve { amount },
            TokenInstruction::Revoke => InstructionModel::Revoke,
            TokenInstruction::MintTo { amount } => InstructionModel::MintTo { amount },
            TokenInstruction::Burn { amount } => InstructionModel::Burn { amount },
            TokenInstruction::CloseAccount => InstructionModel::CloseAccount,
            TokenInstruction::FreezeAccount => InstructionModel::FreezeAccount,
            TokenInstruction::ThawAccount => InstructionModel::ThawAccount,
            TokenInstruction::SyncNative => InstructionModel::SyncNative,
            TokenInstruction::SetAuthority { authority_type, new_authority } =>
                InstructionModel::SetAuthority {
                authority_type,
                new_authority: key_option_view(new_authority),
            },
        }
    }
}

/// The optional key at the start of `s`, if well formed.
pub open spec fn decode_key_option_arg(s: Seq<u8>) -> Option<Option<Seq<u8>>> {
    if s.len() >= 1 && s[0] == 0 {
        Some(None)
    } else if s.len() >= 33 && s[0] == 1 {
        Some(Some(s.subrange(1, 33)))
    } else {
        None
    }
}

/// The amount at the start of `s`, if `s` is long enough.
pub open spec fn decode_amount_arg(s: Seq<u8>) -> Option<u64> {
    if s.len() >= 8 {
        Some(spec_u64_from_le_bytes(s.subrange(0, 8)))
    } else {
        None
    }
}

/// The instruction that bytes encode, if they encode one.
pub open spec fn decode_instruction(s: Seq<u8>) -> Option<InstructionModel> {
    if s.len() == 0 {
        None
    } else {
        let tag = s[0];
        let rest = s.subrange(1, s.len() as int);
        if tag == 0 {
            if rest.len() >= 33 {
                match decode_key_option_arg(rest.subrange(33, rest.len() as int)) {
                    Some(freeze_authority) => Some(
                        InstructionModel::InitializeMint {
                            decimals: rest[0],
                            mint_authority: rest.subrange(1, 33),
                            freeze_authority,
                        },
                    ),
                    None => None,
                }
            } else {
                None
            }
        } else if tag == 1 {
            Some(InstructionModel::InitializeAccount)
        } else if tag == 2 || tag == 3 || tag == 7 || tag == 8 {
            match decode_amount_arg(rest) {
                Some(amount) => Some(
                    if tag == 2 {
                        InstructionModel::Approve { amount }
                    } else if tag == 3 {
                        InstructionModel::Transfer { amount }
                    } else if tag == 7 {
                        InstructionModel::MintTo { amount }
                    } else {
                        InstructionModel::Burn { amount }
                    },
                ),
                None => None,
            }
        } else if tag == 12 {
            if rest.len() >= 9 {
                Some(
                    InstructionModel::TransferChecked {
                        amount: spec_u64_from_le_bytes(rest.subrange(0, 8)),
                        decimals: rest[8],
                    },
                )
            } else {
                None
            }
        } else if tag == 5 {
            Some(InstructionModel::Revoke)
        } else if tag == 6 {
            if rest.len() >= 1 {
                match (
                    spec_authority_type(rest[0]),
                    decode_key_option_arg(rest.subrange(1, rest.len() as int)),
                ) {
                    (Some(authority_type), Some(new_authority)) => Some(
                        InstructionModel::SetAuthority { authority_type, new_authority },
                    ),
                    _ => None,
                }
            } else {
                None
            }
        } else if tag == 9 {
            Some(InstructionModel::SyncNative)
        } else if tag == 10 {
            Some(InstructionModel::CloseAccount)
        } else if tag == 11 {
            Some(InstructionModel::FreezeAccount)
        } else if tag == 13 {
            Some(InstructionModel::ThawAccount)
        } else {
            None
        }
    }
}

/// The bytes of an optional key in instruction data.
pub open spec fn key_option_arg_bytes(o: Option<Seq<u8>>) -> Seq<u8> {
    match o {
        Some(k) => seq![1u8] + k,
        None => seq![0u8],
    }
}

/// The bytes that encode an instruction.
pub open spec fn encode_instruction(m: InstructionModel) -> Seq<u8> {
    match m {
        InstructionModel::InitializeMint { decimals, mint_authority, freeze_authority } => seq![
            0u8,
            decimals,
        ] + mint_authority + key_option_arg_bytes(freeze_authority),
        InstructionModel::InitializeAccount => seq![1u8],
        InstructionModel::Approve { amount } => seq![2u8] + spec_u64_to_le_bytes(amount),
        InstructionModel::Transfer { amount } => seq![3u8] + spec_u64_to_le_bytes(amount),
        InstructionModel::Revoke => seq![5u8],
        InstructionModel::SetAuthority { authority_type, new_authority } => seq![
            6u8,
            authority_type_byte(authority_type),
        ] + key_option_arg_bytes(new_authority),
        InstructionModel::MintTo { amount } => seq![7u8] + spec_u64_to_le_bytes(amount),
        InstructionModel::Burn { amount } => seq![8u8] + spec_u64_to_le_bytes(amount),
        InstructionModel::SyncNative => seq![9u8],
        InstructionModel::CloseAccount => seq![10u8],
        InstructionModel::FreezeAccount => seq![11u8],
        InstructionModel::TransferChecked { amount, decimals } => seq![12u8] + spec_u64_to_le_bytes(
            amount,
        ) + seq![decimals],
        InstructionModel::ThawAccount => seq![13u8],
    }
}

/// The byte of an authority type.
pub open spec fn authority_type_byte(t: AuthorityType) -> u8 {
    match t {
        AuthorityType::MintTokens => 0,
        AuthorityType::FreezeAccount => 1,
        AuthorityType::AccountOwner => 2,
        AuthorityType::CloseAccount => 3,
    }
}

/// An instruction model whose keys have the length of a key.
pub open spec fn instruction_wf(m: InstructionModel) -> bool {
    match m {
        InstructionModel::InitializeMint { mint_authority, freeze_authority, .. } =>
            mint_authority.len() == 32 && key_option_wf(freeze_authority),
        InstructionModel::SetAuthority { new_authority, .. } => key_option_wf(new_authority),
        _ => true,
    }
}

proof fn lemma_key_option_arg_round_trip(o: Option<Seq<u8>>, tail: Seq<u8>)
    requires
        key_option_wf(o),
    ensures
        decode_key_option_arg(key_option_arg_bytes(o) + tail) == Some(o),
{
    let s = key_option_arg_bytes(o) + tail;
    if let Some(k) = o {
        assert(s.subrange(1, 33) =~= k);
    }
}

/// Decoding the bytes of an instruction gives the instruction back.
pub proof fn lemma_instruction_round_trip(m: InstructionModel)
    requires
        instruction_wf(m),
    ensures
        decode_instruction(encode_instruction(m)) == Some(m),
{
    lemma_auto_spec_u64_to_from_le_bytes();
    let s = encode_instruction(m);
    let rest = s.subrange(1, s.len() as int);
    match m {
        InstructionModel::InitializeMint { decimals, mint_authority, freeze_authority } => {
            assert(rest.subrange(1, 33) =~= mint_authority);
            assert(rest.subrange(33, rest.len() as int) =~= key_option_arg_bytes(freeze_authority)
                + Seq::<u8>::empty());
            lemma_key_option_arg_round_trip(freeze_authority, Seq::<u8>::empty());
        },
        InstructionModel::SetAuthority { authority_type, new_authority } => {
            assert(rest.subrange(1, rest.len() as int) =~= key_option_arg_bytes(new_authority)
                + Seq::<u8>::empty());
            lemma_key_option_arg_round_trip(new_authority, Seq::<u8>::empty());
        },
        InstructionModel::Approve { amount } => {
            assert(rest.subrange(0, 8) =~= spec_u64_to_le_bytes(amount));
        },
        InstructionModel::Transfer { amount } => {
            assert(rest.subrange(0, 8) =~= spec_u64_to_le_bytes(amount));
        },
        InstructionModel::MintTo { amount } => {
            assert(rest.subrange(0, 8) =~= spec_u64_to_le_bytes(amount));
        },
        InstructionModel::Burn { amount } => {
            assert(rest.subrange(0, 8) =~= spec_u64_to_le_bytes(amount));
        },
        InstructionModel::TransferChecked { amount, decimals } => {
            assert(rest.subrange(0, 8) =~= spec_u64_to_le_bytes(amount));
        },
        _ => {},
    }
}

impl TokenInstruction {
    /// Encodes the instruction.
    pub fn pack(&self) -> (r: Vec<u8>)
        ensures
            r@ == encode_instruction(self@),
            decode_instruction(r@) == Some(self@),
    {
        let mut out: Vec<u8> = Vec::new();
        match self {
            TokenInstruction::InitializeMint { decimals, mint_authority, freeze_authority } => {
                out.push(0u8);
                out.push(*decimals);
                push_key(&mut out, mint_authority);
                push_key_option(&mut out, freeze_authority);
            },
            TokenInstruction::InitializeAccount => out.push(1u8),
            TokenInstruction::Approve { amount } => {
                out.push(2u8);
                push_u64(&mut out, *amount);
            },
            TokenInstruction::Transfer { amount } => {
                out.push(3u8);
                push_u64(&mut out, *amount);
            },
            TokenInstruction::Revoke => out.push(5u8),
            TokenInstruction::SetAuthority { authority_type, new_authority } => {
                out.push(6u8);
                out.push(
                    match authority_type {
                        AuthorityType::MintTokens => 0u8,
                        AuthorityType::FreezeAccount => 1u8,
                        AuthorityType::AccountOwner => 2u8,
                        AuthorityType::CloseAccount => 3u8,
                    },
                );
                push_key_option(&mut out, new_authority);
            },
            TokenInstruction::MintTo { amount } => {
                out.push(7u8);
                push_u64(&mut out, *amount);
            },
            TokenInstruction::Burn { amount } => {
                out.push(8u8);
                push_u64(&mut out, *amount);
            },
            TokenInstruction::SyncNative => out.push(9u8),
            TokenInstruction::CloseAccount => out.push(10u8),
            TokenInstruction::FreezeAccount => out.push(11u8),
            TokenInstruction::TransferChecked { amount, decimals } => {
                out.push(12u8);
                push_u64(&mut out, *amount);
                out.push(*decimals);
            },
            TokenInstruction::ThawAccount => out.push(13u8),
        }
        assert(out@ =~= encode_instruction(self@));
        proof {
            lemma_instruction_round_trip(self@);
        }
        out
    }

    /// Decodes instruction data.
    pub fn unpack(input: &[u8]) -> (r: Result<Self, ProgramError>)
        ensures
            match decode_instruction(input@) {
                Some(m) => r is Ok && r->Ok_0@ == m,
                None => r == Err::<Self, ProgramError>(invalid_instruction()),
            },
    {
        let n = input.len();
        if n == 0 {
            return Err(TokenError::InvalidInstruction.into());
        }
        let tag = input[0];
        let rest = slice_subrange(input, 1, n);
        let ghost s = input@;
        assert(rest@ == s.subrange(1, s.len() as int));
        if tag == 0 {
            if rest.len() < 1 {
                return Err(TokenError::InvalidInstruction.into());
            }
            let decimals = rest[0];
            let after = slice_subrange(rest, 1, rest.len());
            let (mint_authority, after) = Self::unpack_pubkey(after)?;
            let (freeze_authority, _after) = Self::unpack_pubkey_option(after)?;
            proof {
                assert(rest@.subrange(1, rest@.len() as int).subrange(0, 32) =~= rest@.subrange(
                    1,
                    33,
                ));
                assert(rest@.subrange(1, rest@.len() as int).subrange(32, rest@.len() - 1)
                    =~= rest@.subrange(33, rest@.len() as int));
            }
            Ok(TokenInstruction::InitializeMint { decimals, mint_authority, freeze_authority })
        } else if tag == 1 {
            Ok(TokenInstruction::InitializeAccount)
        } else if tag == 2 || tag == 3 || tag == 7 || tag == 8 {
            let amount = Self::unpack_amount(rest)?;
            if tag == 2 {
                Ok(TokenInstruction::Approve { amount })
            } else if tag == 3 {
                Ok(TokenInstruction::Transfer { amount })
            } else if tag == 7 {
                Ok(TokenInstruction::MintTo { amount })
            } else {
                Ok(TokenInstruction::Burn { amount })
            }
        } else if tag == 12 {
            if rest.len() < 9 {
                return Err(TokenError::InvalidInstruction.into());
            }
            let amount = Self::unpack_amount(rest)?;
            let decimals = rest[8];
            Ok(TokenInstruction::TransferChecked { amount, decimals })
        } else if tag == 5 {
            Ok(TokenInstruction::Revoke)
        } else if tag == 6 {
            if rest.len() < 1 {
                return Err(TokenError::InvalidInstruction.into());
            }
            let authority_type = AuthorityType::from_u8(rest[0])?;
            let after = slice_subrange(rest, 1, rest.len());
            let (new_authority, _after) = Self::unpack_pubkey_option(after)?;
            Ok(TokenInstruction::SetAuthority { authority_type, new_authority })
        } else if tag == 9 {
            Ok(TokenInstruction::SyncNative)
        } else if tag == 10 {
            Ok(TokenInstruction::CloseAccount)
        } else if tag == 11 {
            Ok(TokenInstruction::FreezeAccount)
        } else if tag == 13 {
            Ok(TokenInstruction::ThawAccount)
        } else {
            Err(TokenError::InvalidInstruction.into())
        }
    }

    /// Reads the amount at the start of `input`.
    fn unpack_amount(input: &[u8]) -> (r: Result<u64, ProgramError>)
        ensures
            match decode_amount_arg(input@) {
                Some(a) => r == Ok::<u64, ProgramError>(a),
                None => r == Err::<u64, ProgramError>(invalid_instruction()),
            },
    {
        if input.len() < 8 {
            return Err(TokenError::InvalidInstruction.into());
        }
        let part = slice_subrange(input, 0, 8);
        Ok(u64_from_le_bytes(part))
    }

    /// Reads a key from the start of `input`, and returns it with what follows.
    fn unpack_pubkey(input: &[u8]) -> (r: Result<(Pubkey, &[u8]), ProgramError>)
        ensures
            input@.len() >= 32 ==> r is Ok && r->Ok_0.0@ == input@.subrange(0, 32)
                && r->Ok_0.1@ == input@.subrange(32, input@.len() as int),
            input@.len() < 32 ==> r == Err::<(Pubkey, &[u8]), ProgramError>(
                invalid_instruction(),
            ),
    {
        let n = input.len();
        if n >= PUBKEY_BYTES {
            let key = Pubkey::read_from(input, 0);
            let rest = slice_subrange(input, PUBKEY_BYTES, n);
            Ok((key, rest))
        } else {
            Err(TokenError::InvalidInstruction.into())
        }
    }

    /// Reads an optional key from the start of `input`, and returns it with
    /// what follows.
    fn unpack_pubkey_option(input: &[u8]) -> (r: Result<(Option<Pubkey>, &[u8]), ProgramError>)
        ensures
            match decode_key_option_arg(input@) {
                Some(o) => r is Ok && key_option_view(r->Ok_0.0) == o,
                None => r == Err::<(Option<Pubkey>, &[u8]), ProgramError>(
                    invalid_instruction(),
                ),
            },
    {
        let n = input.len();
        if n >= 1 && input[0] == 0 {
            let rest = slice_subrange(input, 1, n);
            Ok((None, rest))
        } else if n >= 1 + PUBKEY_BYTES && input[0] == 1 {
            let key = Pubkey::read_from(input, 1);
            let rest = slice_subrange(input, 1 + PUBKEY_BYTES, n);
            Ok((Some(key), rest))
        } else {
            Err(TokenError::InvalidInstruction.into())
        }
    }
}

fn push_key_option(out: &mut Vec<u8>, o: &Option<Pubkey>)
    ensures
        final(out)@ == old(out)@ + key_option_arg_bytes(key_option_view(*o)),
{
    let ghost start = out@;
    match o {
        Some(k) => {
            out.push(1u8);
            push_key(out, k);
        },
        None => out.push(0u8),
    }
    assert(out@ =~= start + key_option_arg_bytes(key_option_view(*o)));
}

} // verus!
