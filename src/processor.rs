//! The instruction processor: one handler per instruction, and the router.
//!
//! Each handler is specified by an outcome function over the models of the
//! accounts it is given. The outcome is either the accounts as they must be
//! afterwards, or the single error that the first failing check raises; on
//! an error the handler leaves every account exactly as it found it.
//! Accounts are positional: each handler names what it expects at each index
//! and ignores accounts beyond those.

use vstd::prelude::*;

use crate::account_info::{infos, set_data, with_data, AccountInfo, AccountInfoModel};
use crate::error::{ProgramError, TokenError};
use crate::instruction::{
    decode_instruction, invalid_instruction, AuthorityType, InstructionModel, TokenInstruction,
};
use crate::native_mint;
use crate::pubkey::Pubkey;
use crate::state::{
    account_bytes, decode_account, decode_mint, key_option_view, mint_bytes, zeros, Account,
    AccountModel, Mint, MintModel,
};

verus! {

/// A token-program error as a program error.
pub open spec fn token_error(e: TokenError) -> ProgramError {
    ProgramError::Custom(e)
}

/// What a handler's result and the accounts afterwards must be, given the
/// outcome `o`, the accounts before (`pre`) and after (`post`).
pub open spec fn outcome_holds(
    o: Result<Seq<AccountInfoModel>, ProgramError>,
    r: Result<(), ProgramError>,
    pre: Seq<AccountInfoModel>,
    post: Seq<AccountInfoModel>,
) -> bool {
    match o {
        Ok(p) => r is Ok && post == p,
        Err(e) => r == Err::<(), ProgramError>(e) && post == pre,
    }
}

/// Reading an initialized token account from an account's data.
pub open spec fn load_account(info: AccountInfoModel) -> Result<AccountModel, ProgramError> {
    match decode_account(info.data) {
        None => Err(ProgramError::InvalidAccountData),
        Some(a) => if a.is_initialized {
            Ok(a)
        } else {
            Err(token_error(TokenError::NotInitialized))
        },
    }
}

/// Reading an initialized mint from an account's data.
pub open spec fn load_mint(info: AccountInfoModel) -> Result<MintModel, ProgramError> {
    match decode_mint(info.data) {
        None => Err(ProgramError::InvalidAccountData),
        Some(m) => if m.is_initialized {
            Ok(m)
        } else {
            Err(token_error(TokenError::InvalidMint))
        },
    }
}

/// The account with a token account stored in its data.
pub open spec fn store_account(info: AccountInfoModel, a: AccountModel) -> AccountInfoModel {
    with_data(info, account_bytes(a))
}

/// The account with a mint stored in its data.
pub open spec fn store_mint(info: AccountInfoModel, m: MintModel) -> AccountInfoModel {
    with_data(info, mint_bytes(m))
}

/// `auth` is `key`, and signed.
pub open spec fn signed_by(key: Seq<u8>, auth: AccountInfoModel) -> bool {
    key == auth.key && auth.is_signer
}

/// InitializeMint on `[mint]`: the mint must be held by the program,
/// uninitialized, and hold at least `minimum_balance` lamports, the
/// rent-exempt minimum for its data length.
pub open spec fn initialize_mint_outcome(
    program_id: Seq<u8>,
    pre: Seq<AccountInfoModel>,
    decimals: u8,
    mint_authority: Seq<u8>,
    freeze_authority: Option<Seq<u8>>,
    minimum_balance: u64,
) -> Result<Seq<AccountInfoModel>, ProgramError> {
    if pre.len() < 1 {
        Err(ProgramError::NotEnoughAccountKeys)
    } else {
        let info = pre[0];
        if info.owner != program_id {
            Err(ProgramError::IncorrectProgramId)
        } else {
            match decode_mint(info.data) {
                None => Err(ProgramError::InvalidAccountData),
                Some(m) => if m.is_initialized {
                    Err(token_error(TokenError::AlreadyInitialized))
                } else if info.lamports < minimum_balance {
                    Err(token_error(TokenError::NotRentExempt))
                } else {
                    Ok(
                        pre.update(
                            0,
                            store_mint(
                                info,
                                MintModel {
                                    mint_authority: Some(mint_authority),
                                    supply: 0,
                                    decimals,
                                    is_initialized: true,
                                    freeze_authority,
                                },
                            ),
                        ),
                    )
                },
            }
        }
    }
}

/// The token account that InitializeAccount creates for `mint` and `owner`
/// in an account holding `lamports`; a native account's balance is its
/// lamports above the reserve.
pub open spec fn new_account(
    mint: Seq<u8>,
    owner: Seq<u8>,
    lamports: u64,
    minimum_balance: u64,
) -> AccountModel {
    let native = mint == native_mint::spec_id();
    AccountModel {
        mint,
        owner,
        amount: if native {
            (lamports - minimum_balance) as u64
        } else {
            0
        },
        is_initialized: true,
        is_native: if native {
            Some(minimum_balance)
        } else {
            None
        },
        delegate: None,
        delegated_amount: 0,
        is_frozen: false,
    }
}

/// InitializeAccount on `[account, mint, owner]`.
pub open spec fn initialize_account_outcome(
    program_id: Seq<u8>,
    pre: Seq<AccountInfoModel>,
    minimum_balance: u64,
) -> Result<Seq<AccountInfoModel>, ProgramError> {
    if pre.len() < 3 {
        Err(ProgramError::NotEnoughAccountKeys)
    } else {
        let info = pre[0];
        let mint_info = pre[1];
        let owner_info = pre[2];
        if info.owner != program_id {
            Err(ProgramError::IncorrectProgramId)
        } else {
            match load_mint(mint_info) {
                Err(e) => Err(e),
                Ok(_) => match decode_account(info.data) {
                    None => Err(ProgramError::InvalidAccountData),
                    Some(a) => if a.is_initialized {
                        Err(token_error(TokenError::AlreadyInitialized))
                    } else if info.lamports < minimum_balance {
                        Err(token_error(TokenError::NotRentExempt))
                    } else {
                        Ok(
                            pre.update(
                                0,
                                store_account(
                                    info,
                                    new_account(
                                        mint_info.key,
                                        owner_info.key,
                                        info.lamports,
                                        minimum_balance,
                                    ),
                                ),
                            ),
                        )
                    },
                },
            }
        }
    }
}

/// The authority acts as the source's delegate: it is the delegate, signed,
/// and the amount is within the delegated amount.
pub open spec fn acts_as_delegate(src: AccountModel, auth: AccountInfoModel, amount: u64) -> bool {
    src.delegate == Some(auth.key) && auth.is_signer && amount <= src.delegated_amount
}

/// The source after a transfer of `amount`: the balance drops, and a
/// delegate's allowance drops too, the delegate going once it reaches zero.
pub open spec fn debited(src: AccountModel, by_delegate: bool, amount: u64) -> AccountModel {
    if by_delegate {
        let rest = (src.delegated_amount - amount) as u64;
        AccountModel {
            amount: (src.amount - amount) as u64,
            delegated_amount: rest,
            delegate: if rest == 0 {
                None
            } else {
                src.delegate
            },
            ..src
        }
    } else {
        AccountModel { amount: (src.amount - amount) as u64, ..src }
    }
}

/// The checks that TransferChecked adds on the mint at index 1: it is the
/// source's mint, initialized, with the expected decimals.
pub open spec fn mint_check(
    mint_info: AccountInfoModel,
    src: AccountModel,
    decimals: u8,
) -> Result<(), ProgramError> {
    if mint_info.key != src.mint {
        Err(token_error(TokenError::MintMismatch))
    } else {
        match load_mint(mint_info) {
            Err(e) => Err(e),
            Ok(m) => if m.decimals != decimals {
                Err(token_error(TokenError::MintMismatch))
            } else {
                Ok(())
            },
        }
    }
}

/// Index of the destination in a transfer's accounts.
pub open spec fn transfer_destination_index(checked: bool) -> int {
    if checked {
        2
    } else {
        1
    }
}

/// Transfer on `[source, destination, authority]`, or, with expected
/// decimals, TransferChecked on `[source, mint, destination, authority]`.
pub open spec fn transfer_outcome(
    program_id: Seq<u8>,
    pre: Seq<AccountInfoModel>,
    amount: u64,
    expected_decimals: Option<u8>,
) -> Result<Seq<AccountInfoModel>, ProgramError> {
    let checked = expected_decimals is Some;
    let di = transfer_destination_index(checked);
    if pre.len() < di + 2 {
        Err(ProgramError::NotEnoughAccountKeys)
    } else {
        let src_info = pre[0];
        let dst_info = pre[di];
        let auth = pre[di + 1];
        if src_info.owner != program_id || dst_info.owner != program_id {
            Err(ProgramError::IncorrectProgramId)
        } else if !src_info.is_writable || !dst_info.is_writable {
            Err(token_error(TokenError::InvalidOwner))
        } else {
            match load_account(src_info) {
                Err(e) => Err(e),
                Ok(src) => if src.is_frozen {
                    Err(token_error(TokenError::AccountFrozen))
                } else {
                    match load_account(dst_info) {
                        Err(e) => Err(e),
                        Ok(dst) => if dst.is_frozen {
                            Err(token_error(TokenError::AccountFrozen))
                        } else if src.mint != dst.mint {
                            Err(token_error(TokenError::MintMismatch))
                        } else {
                            match (if checked {
                                mint_check(pre[1], src, expected_decimals->Some_0)
                            } else {
                                Ok(())
                            }) {
                                Err(e) => Err(e),
                                Ok(_) => {
                                    let by_delegate = acts_as_delegate(src, auth, amount);
                                    if !by_delegate && !signed_by(src.owner, auth) {
                                        Err(token_error(TokenError::InvalidOwner))
                                    } else if src_info.key == dst_info.key {
                                        Ok(pre)
                                    } else if src.amount < amount {
                                        Err(token_error(TokenError::InsufficientFunds))
                                    } else if dst.amount + amount > u64::MAX {
                                        Err(token_error(TokenError::Overflow))
                                    } else {
                                        Ok(
                                            pre.update(
                                                0,
                                                store_account(
                                                    src_info,
                                                    debited(src, by_delegate, amount),
                                                ),
                                            ).update(
                                                di,
                                                store_account(
                                                    dst_info,
                                                    AccountModel {
                                                        amount: (dst.amount + amount) as u64,
                                                        ..dst
                                                    },
                                                ),
                                            ),
                                        )
                                    }
                                },
                            }
                        },
                    }
                },
            }
        }
    }
}

/// MintTo on `[mint, destination, mint authority]`.
pub open spec fn mint_to_outcome(
    program_id: Seq<u8>,
    pre: Seq<AccountInfoModel>,
    amount: u64,
) -> Result<Seq<AccountInfoModel>, ProgramError> {
    if pre.len() < 3 {
        Err(ProgramError::NotEnoughAccountKeys)
    } else {
        let mint_info = pre[0];
        let dst_info = pre[1];
        let auth = pre[2];
        if mint_info.owner != program_id || dst_info.owner != program_id {
            Err(ProgramError::IncorrectProgramId)
        } else if !mint_info.is_writable || !dst_info.is_writable {
            Err(token_error(TokenError::InvalidOwner))
        } else {
            match load_mint(mint_info) {
                Err(e) => Err(e),
                Ok(m) => match m.mint_authority {
                    None => Err(token_error(TokenError::InvalidMint)),
                    Some(a) => if !signed_by(a, auth) {
                        Err(token_error(TokenError::InvalidOwner))
                    } else {
                        match load_account(dst_info) {
                            Err(e) => Err(e),
                            Ok(dst) => if dst.mint != mint_info.key {
                                Err(token_error(TokenError::MintMismatch))
                            } else if m.supply + amount > u64::MAX || dst.amount + amount
                                > u64::MAX {
                                Err(token_error(TokenError::Overflow))
                            } else {
                                Ok(
                                    pre.update(
                                        0,
                                        store_mint(
                                            mint_info,
                                            MintModel { supply: (m.supply + amount) as u64, ..m },
                                        ),
                                    ).update(
                                        1,
                                        store_account(
                                            dst_info,
                                            AccountModel {
                                                amount: (dst.amount + amount) as u64,
                                                ..dst
                                            },
                                        ),
                                    ),
                                )
                            },
                        }
                    },
                },
            }
        }
    }
}

/// Burn on `[account, mint, owner]`.
pub open spec fn burn_outcome(
    program_id: Seq<u8>,
    pre: Seq<AccountInfoModel>,
    amount: u64,
) -> Result<Seq<AccountInfoModel>, ProgramError> {
    if pre.len() < 3 {
        Err(ProgramError::NotEnoughAccountKeys)
    } else {
        let acc_info = pre[0];
        let mint_info = pre[1];
        let auth = pre[2];
        if acc_info.owner != program_id || mint_info.owner != program_id {
            Err(ProgramError::IncorrectProgramId)
        } else if !acc_info.is_writable || !mint_info.is_writable {
            Err(token_error(TokenError::InvalidOwner))
        } else {
            match load_account(acc_info) {
                Err(e) => Err(e),
                Ok(a) => if a.is_frozen {
                    Err(token_error(TokenError::AccountFrozen))
                } else {
                    match load_mint(mint_info) {
                        Err(e) => Err(e),
                        Ok(m) => if a.mint != mint_info.key {
                            Err(token_error(TokenError::MintMismatch))
                        } else if !signed_by(a.owner, auth) {
                            Err(token_error(TokenError::InvalidOwner))
                        } else if a.amount < amount {
                            Err(token_error(TokenError::InsufficientFunds))
                        } else if m.supply < amount {
                            Err(token_error(TokenError::Overflow))
                        } else {
                            Ok(
                                pre.update(
                                    0,
                                    store_account(
                                        acc_info,
                                        AccountModel { amount: (a.amount - amount) as u64, ..a },
                                    ),
                                ).update(
                                    1,
                                    store_mint(
                                        mint_info,
                                        MintModel { supply: (m.supply - amount) as u64, ..m },
                                    ),
                                ),
                            )
                        },
                    }
                },
            }
        }
    }
}

/// The checks that Approve and Revoke share on `[source, .., owner]`, with
/// the owner at `owner_index`: the record it yields, or the error.
pub open spec fn owner_action_check(
    program_id: Seq<u8>,
    pre: Seq<AccountInfoModel>,
    owner_index: int,
) -> Result<AccountModel, ProgramError> {
    let src_info = pre[0];
    if src_info.owner != program_id {
        Err(ProgramError::IncorrectProgramId)
    } else if !src_info.is_writable {
        Err(token_error(TokenError::InvalidOwner))
    } else {
        match load_account(src_info) {
            Err(e) => Err(e),
            Ok(a) => if a.is_frozen {
                Err(token_error(TokenError::AccountFrozen))
            } else if !signed_by(a.owner, pre[owner_index]) {
                Err(token_error(TokenError::InvalidOwner))
            } else {
                Ok(a)
            },
        }
    }
}

/// Approve on `[source, delegate, owner]`.
pub open spec fn approve_outcome(
    program_id: Seq<u8>,
    pre: Seq<AccountInfoModel>,
    amount: u64,
) -> Result<Seq<AccountInfoModel>, ProgramError> {
    if pre.len() < 3 {
        Err(ProgramError::NotEnoughAccountKeys)
    } else {
        match owner_action_check(program_id, pre, 2) {
            Err(e) => Err(e),
            Ok(a) => Ok(
                pre.update(
                    0,
                    store_account(
                        pre[0],
                        AccountModel { delegate: Some(pre[1].key), delegated_amount: amount, ..a },
                    ),
                ),
            ),
        }
    }
}

/// Revoke on `[source, owner]`.
pub open spec fn revoke_outcome(program_id: Seq<u8>, pre: Seq<AccountInfoModel>) -> Result<
    Seq<AccountInfoModel>,
    ProgramError,
> {
    if pre.len() < 2 {
        Err(ProgramError::NotEnoughAccountKeys)
    } else {
        match owner_action_check(program_id, pre, 1) {
            Err(e) => Err(e),
            Ok(a) => Ok(
                pre.update(
                    0,
                    store_account(pre[0], AccountModel { delegate: None, delegated_amount: 0, ..a }),
                ),
            ),
        }
    }
}

/// CloseAccount on `[account, destination, owner]`: the account's lamports
/// all go to the destination, and the account is handed to the system
/// program with its data zeroed.
pub open spec fn close_account_outcome(program_id: Seq<u8>, pre: Seq<AccountInfoModel>) -> Result<
    Seq<AccountInfoModel>,
    ProgramError,
> {
    if pre.len() < 3 {
        Err(ProgramError::NotEnoughAccountKeys)
    } else {
        let src_info = pre[0];
        let dst_info = pre[1];
        let auth = pre[2];
        if src_info.key == dst_info.key {
            Err(ProgramError::InvalidAccountData)
        } else if src_info.owner != program_id {
            Err(ProgramError::IncorrectProgramId)
        } else {
            match load_account(src_info) {
                Err(e) => Err(e),
                Ok(a) => if a.is_native is None && a.amount != 0 {
                    Err(token_error(TokenError::InvalidState))
                } else if !signed_by(a.owner, auth) {
                    Err(token_error(TokenError::InvalidOwner))
                } else if dst_info.lamports + src_info.lamports > u64::MAX {
                    Err(token_error(TokenError::Overflow))
                } else {
                    Ok(
                        pre.update(
                            0,
                            AccountInfoModel {
                                lamports: 0,
                                owner: zeros(32),
                                data: zeros(src_info.data.len()),
                                ..src_info
                            },
                        ).update(
                            1,
                            AccountInfoModel {
                                lamports: (dst_info.lamports + src_info.lamports) as u64,
                                ..dst_info
                            },
                        ),
                    )
                },
            }
        }
    }
}

/// FreezeAccount (`freeze`) or ThawAccount (`!freeze`) on
/// `[account, mint, freeze authority]`.
pub open spec fn freeze_outcome(
    program_id: Seq<u8>,
    pre: Seq<AccountInfoModel>,
    freeze: bool,
) -> Result<Seq<AccountInfoModel>, ProgramError> {
    if pre.len() < 3 {
        Err(ProgramError::NotEnoughAccountKeys)
    } else {
        let acc_info = pre[0];
        let mint_info = pre[1];
        let auth = pre[2];
        if acc_info.owner != program_id {
            Err(ProgramError::IncorrectProgramId)
        } else if !acc_info.is_writable {
            Err(token_error(TokenError::InvalidOwner))
        } else {
            match load_account(acc_info) {
                Err(e) => Err(e),
                Ok(a) => if a.is_frozen == freeze {
                    Err(token_error(TokenError::InvalidState))
                } else if a.is_native is Some {
                    Err(token_error(TokenError::NonNativeNotSupported))
                } else if a.mint != mint_info.key {
                    Err(token_error(TokenError::MintMismatch))
                } else {
                    match load_mint(mint_info) {
                        Err(e) => Err(e),
                        Ok(m) => match m.freeze_authority {
                            None => Err(token_error(TokenError::MintCannotFreeze)),
                            Some(f) => if !signed_by(f, auth) {
                                Err(token_error(TokenError::InvalidOwner))
                            } else {
                                Ok(
                                    pre.update(
                                        0,
                                        store_account(
                                            acc_info,
                                            AccountModel { is_frozen: freeze, ..a },
                                        ),
                                    ),
                                )
                            },
                        },
                    }
                },
            }
        }
    }
}

/// SyncNative on `[account]`: a native account's balance becomes its
/// lamports above the reserve, and may only grow.
pub open spec fn sync_native_outcome(program_id: Seq<u8>, pre: Seq<AccountInfoModel>) -> Result<
    Seq<AccountInfoModel>,
    ProgramError,
> {
    if pre.len() < 1 {
        Err(ProgramError::NotEnoughAccountKeys)
    } else {
        let info = pre[0];
        if info.owner != program_id {
            Err(ProgramError::IncorrectProgramId)
        } else {
            match load_account(info) {
                Err(e) => Err(e),
                Ok(a) => match a.is_native {
                    None => Err(token_error(TokenError::NonNativeNotSupported)),
                    Some(reserve) => if info.lamports < reserve {
                        Err(token_error(TokenError::Overflow))
                    } else if info.lamports - reserve < a.amount {
                        Err(token_error(TokenError::InvalidState))
                    } else {
                        Ok(
                            pre.update(
                                0,
                                store_account(
                                    info,
                                    AccountModel { amount: (info.lamports - reserve) as u64, ..a },
                                ),
                            ),
                        )
                    },
                },
            }
        }
    }
}

/// SetAuthority on `[account or mint, current authority]`.
pub open spec fn set_authority_outcome(
    program_id: Seq<u8>,
    pre: Seq<AccountInfoModel>,
    authority_type: AuthorityType,
    new_authority: Option<Seq<u8>>,
) -> Result<Seq<AccountInfoModel>, ProgramError> {
    if pre.len() < 2 {
        Err(ProgramError::NotEnoughAccountKeys)
    } else {
        let info = pre[0];
        let auth = pre[1];
        if info.owner != program_id {
            Err(ProgramError::IncorrectProgramId)
        } else if !info.is_writable {
            Err(token_error(TokenError::InvalidOwner))
        } else {
            match authority_type {
                AuthorityType::AccountOwner => match load_account(info) {
                    Err(e) => Err(e),
                    Ok(a) => if !signed_by(a.owner, auth) {
                        Err(token_error(TokenError::InvalidOwner))
                    } else {
                        match new_authority {
                            None => Err(token_error(TokenError::InvalidInstruction)),
                            Some(k) => Ok(
                                pre.update(
                                    0,
                                    store_account(
                                        info,
                                        AccountModel {
                                            owner: k,
                                            delegate: None,
                                            delegated_amount: 0,
                                            ..a
                                        },
                                    ),
                                ),
                            ),
                        }
                    },
                },
                AuthorityType::CloseAccount => Err(token_error(TokenError::InvalidInstruction)),
                AuthorityType::MintTokens => match load_mint(info) {
                    Err(e) => Err(e),
                    Ok(m) => match m.mint_authority {
                        None => Err(token_error(TokenError::InvalidMint)),
                        Some(a) => if !signed_by(a, auth) {
                            Err(token_error(TokenError::InvalidOwner))
                        } else {
                            Ok(
                                pre.update(
                                    0,
                                    store_mint(info, MintModel { mint_authority: new_authority, ..m }),
                                ),
                            )
                        },
                    },
                },
                AuthorityType::FreezeAccount => match load_mint(info) {
                    Err(e) => Err(e),
                    Ok(m) => match m.freeze_authority {
                        None => Err(token_error(TokenError::MintCannotFreeze)),
                        Some(f) => if !signed_by(f, auth) {
                            Err(token_error(TokenError::InvalidOwner))
                        } else {
                            Ok(
                                pre.update(
                                    0,
                                    store_mint(
                                        info,
                                        MintModel { freeze_authority: new_authority, ..m },
                                    ),
                                ),
                            )
                        },
                    },
                },
            }
        }
    }
}

/// The outcome of a decoded instruction.
pub open spec fn instruction_outcome(
    program_id: Seq<u8>,
    pre: Seq<AccountInfoModel>,
    ix: InstructionModel,
    minimum_balance: u64,
) -> Result<Seq<AccountInfoModel>, ProgramError> {
    match ix {
        InstructionModel::InitializeMint { decimals, mint_authority, freeze_authority } =>
            initialize_mint_outcome(
            program_id,
            pre,
            decimals,
            mint_authority,
            freeze_authority,
            minimum_balance,
        ),
        InstructionModel::InitializeAccount => initialize_account_outcome(
            program_id,
            pre,
            minimum_balance,
        ),
        InstructionModel::Transfer { amount } => transfer_outcome(program_id, pre, amount, None),
        InstructionModel::TransferChecked { amount, decimals } => transfer_outcome(
            program_id,
            pre,
            amount,
            Some(decimals),
        ),
        InstructionModel::Approve { amount } => approve_outcome(program_id, pre, amount),
        InstructionModel::Revoke => revoke_outcome(program_id, pre),
        InstructionModel::MintTo { amount } => mint_to_outcome(program_id, pre, amount),
        InstructionModel::Burn { amount } => burn_outcome(program_id, pre, amount),
        InstructionModel::CloseAccount => close_account_outcome(program_id, pre),
        InstructionModel::FreezeAccount => freeze_outcome(program_id, pre, true),
        InstructionModel::ThawAccount => freeze_outcome(program_id, pre, false),
        InstructionModel::SyncNative => sync_native_outcome(program_id, pre),
        InstructionModel::SetAuthority { authority_type, new_authority } => set_authority_outcome(
            program_id,
            pre,
            authority_type,
            new_authority,
        ),
    }
}

/// The outcome of instruction data: its instruction's, or the error of
/// malformed data.
pub open spec fn process_outcome(
    program_id: Seq<u8>,
    pre: Seq<AccountInfoModel>,
    input: Seq<u8>,
    minimum_balance: u64,
) -> Result<Seq<AccountInfoModel>, ProgramError> {
    match decode_instruction(input) {
        None => Err(invalid_instruction()),
        Some(ix) => instruction_outcome(program_id, pre, ix, minimum_balance),
    }
}

/// `r` is the result `s` describes, records given by their models.
pub open spec fn loaded_account(r: Result<Account, ProgramError>, s: Result<AccountModel, ProgramError>) -> bool {
    match s {
        Ok(a) => r is Ok && r->Ok_0@ == a,
        Err(e) => r == Err::<Account, ProgramError>(e),
    }
}

/// `r` is the result `s` describes, records given by their models.
pub open spec fn loaded_mint(r: Result<Mint, ProgramError>, s: Result<MintModel, ProgramError>) -> bool {
    match s {
        Ok(m) => r is Ok && r->Ok_0@ == m,
        Err(e) => r == Err::<Mint, ProgramError>(e),
    }
}

/// Reads an initialized token account from an account's data.
fn read_account(info: &AccountInfo) -> (r: Result<Account, ProgramError>)
    ensures
        loaded_account(r, load_account(info@)),
{
    let a = Account::unpack_unchecked(info.data.as_slice())?;
    if !a.is_initialized {
        return Err(TokenError::NotInitialized.into());
    }
    Ok(a)
}

/// Reads an initialized mint from an account's data.
fn read_mint(info: &AccountInfo) -> (r: Result<Mint, ProgramError>)
    ensures
        loaded_mint(r, load_mint(info@)),
{
    let m = Mint::unpack_unchecked(info.data.as_slice())?;
    if !m.is_initialized {
        return Err(TokenError::InvalidMint.into());
    }
    Ok(m)
}

/// Program state handler.
pub struct Processor {}

impl Processor {
    /// Checks that the account is held by the program `program_id`.
    pub fn check_account_owner(program_id: &Pubkey, account_info: &AccountInfo) -> (r: Result<
        (),
        ProgramError,
    >)
        ensures
            r is Ok <==> account_info.owner@ == program_id@,
            r is Err ==> r == Err::<(), ProgramError>(ProgramError::IncorrectProgramId),
    {
        if !Self::cmp_pubkeys(program_id, &account_info.owner) {
            Err(ProgramError::IncorrectProgramId)
        } else {
            Ok(())
        }
    }

    /// Whether two keys are equal.
    pub fn cmp_pubkeys(a: &Pubkey, b: &Pubkey) -> (r: bool)
        ensures
            r == (a@ == b@),
    {
        a.equals(b)
    }

    /// Checks that `authority` is `expected` and signed.
    fn validate_owner(expected: &Pubkey, authority: &AccountInfo) -> (r: Result<(), ProgramError>)
        ensures
            r is Ok <==> signed_by(expected@, authority@),
            r is Err ==> r == Err::<(), ProgramError>(token_error(TokenError::InvalidOwner)),
    {
        if !Self::cmp_pubkeys(expected, &authority.key) || !authority.is_signer {
            return Err(TokenError::InvalidOwner.into());
        }
        Ok(())
    }

    /// Processes an InitializeMint instruction on `[mint]`; `minimum_balance`
    /// is the rent-exempt minimum for the mint's data length.
    pub fn process_initialize_mint(
        program_id: &Pubkey,
        accounts: &mut Vec<AccountInfo>,
        decimals: u8,
        mint_authority: Pubkey,
        freeze_authority: Option<Pubkey>,
        minimum_balance: u64,
    ) -> (r: Result<(), ProgramError>)
        ensures
            outcome_holds(
                initialize_mint_outcome(
                    program_id@,
                    infos(old(accounts)@),
                    decimals,
                    mint_authority@,
                    key_option_view(freeze_authority),
                    minimum_balance,
                ),
                r,
                infos(old(accounts)@),
                infos(final(accounts)@),
            ),
    {
        if accounts.len() < 1 {
            return Err(ProgramError::NotEnoughAccountKeys);
        }
        let mint_info = &accounts[0];
        Self::check_account_owner(program_id, mint_info)?;
        let mut mint = Mint::unpack_unchecked(mint_info.data.as_slice())?;
        if mint.is_initialized {
            return Err(TokenError::AlreadyInitialized.into());
        }
        if mint_info.lamports < minimum_balance {
            return Err(TokenError::NotRentExempt.into());
        }
        mint.mint_authority = Some(mint_authority);
        mint.decimals = decimals;
        mint.supply = 0;
        mint.is_initialized = true;
        mint.freeze_authority = freeze_authority;
        set_data(accounts, 0, mint.to_bytes());
        Ok(())
    }

    /// Processes an InitializeAccount instruction on `[account, mint, owner]`;
    /// `minimum_balance` is the rent-exempt minimum for the account's data
    /// length.
    pub fn process_initialize_account(
        program_id: &Pubkey,
        accounts: &mut Vec<AccountInfo>,
        minimum_balance: u64,
    ) -> (r: Result<(), ProgramError>)
        ensures
            outcome_holds(
                initialize_account_outcome(program_id@, infos(old(accounts)@), minimum_balance),
                r,
                infos(old(accounts)@),
                infos(final(accounts)@),
            ),
    {
        if accounts.len() < 3 {
            return Err(ProgramError::NotEnoughAccountKeys);
        }
        let account_info = &accounts[0];
        let mint_info = &accounts[1];
        let owner_info = &accounts[2];
        Self::check_account_owner(program_id, account_info)?;
        let _mint = read_mint(mint_info)?;
        let mut account = Account::unpack_unchecked(account_info.data.as_slice())?;
        if account.is_initialized {
            return Err(TokenError::AlreadyInitialized.into());
        }
        let lamports = account_info.lamports;
        if lamports < minimum_balance {
            return Err(TokenError::NotRentExempt.into());
        }
        let native = native_mint::id();
        account.mint = mint_info.key;
        account.owner = owner_info.key;
        account.is_initialized = true;
        account.delegate = None;
        account.delegated_amount = 0;
        account.is_frozen = false;
        if mint_info.key.equals(&native) {
            account.is_native = Some(minimum_balance);
            account.amount = lamports - minimum_balance;
        } else {
            account.is_native = None;
            account.amount = 0;
        }
        set_data(accounts, 0, account.to_bytes());
        Ok(())
    }

    /// Processes a Transfer instruction on `[source, destination, authority]`,
    /// or, when `expected_decimals` is given, a TransferChecked instruction
    /// on `[source, mint, destination, authority]`.
    pub fn process_transfer(
        program_id: &Pubkey,
        accounts: &mut Vec<AccountInfo>,
        amount: u64,
        expected_decimals: Option<u8>,
    ) -> (r: Result<(), ProgramError>)
        ensures
            outcome_holds(
                transfer_outcome(program_id@, infos(old(accounts)@), amount, expected_decimals),
                r,
                infos(old(accounts)@),
                infos(final(accounts)@),
            ),
    {
        let ghost pre = infos(accounts@);
        let di: usize = if expected_decimals.is_some() {
            2
        } else {
            1
        };
        if accounts.len() < di + 2 {
            return Err(ProgramError::NotEnoughAccountKeys);
        }
        let source_info = &accounts[0];
        let destination_info = &accounts[di];
        let authority_info = &accounts[di + 1];
        Self::check_account_owner(program_id, source_info)?;
        Self::check_account_owner(program_id, destination_info)?;
        if !source_info.is_writable || !destination_info.is_writable {
            return Err(TokenError::InvalidOwner.into());
        }
        let mut source = read_account(source_info)?;
        if source.is_frozen {
            return Err(TokenError::AccountFrozen.into());
        }
        let mut destination = read_account(destination_info)?;
        if destination.is_frozen {
            return Err(TokenError::AccountFrozen.into());
        }
        if !source.mint.equals(&destination.mint) {
            return Err(TokenError::MintMismatch.into());
        }
        if let Some(decimals) = expected_decimals {
            let mint_info = &accounts[1];
            if !mint_info.key.equals(&source.mint) {
                return Err(TokenError::MintMismatch.into());
            }
            let mint = read_mint(mint_info)?;
            if mint.decimals != decimals {
                return Err(TokenError::MintMismatch.into());
            }
        }
        let by_delegate = match source.delegate {
            Some(delegate) => delegate.equals(&authority_info.key) && authority_info.is_signer
                && amount <= source.delegated_amount,
            None => false,
        };
        if !by_delegate {
            Self::validate_owner(&source.owner, authority_info)?;
        }
        if source_info.key.equals(&destination_info.key) {
            return Ok(());
        }
        if source.amount < amount {
            return Err(TokenError::InsufficientFunds.into());
        }
        let new_destination_amount = match destination.amount.checked_add(amount) {
            Some(v) => v,
            None => {
                return Err(TokenError::Overflow.into());
            },
        };
        source.amount = source.amount - amount;
        if by_delegate {
            source.delegated_amount = source.delegated_amount - amount;
            if source.delegated_amount == 0 {
                source.delegate = None;
            }
        }
        destination.amount = new_destination_amount;
        set_data(accounts, 0, source.to_bytes());
        assert(infos(accounts@)[di as int] == pre[di as int]);
        assert(accounts@[di as int]@ == infos(accounts@)[di as int]);
        set_data(accounts, di, destination.to_bytes());
        Ok(())
    }

    /// Processes a MintTo instruction on `[mint, destination, mint authority]`.
    pub fn process_mint_to(program_id: &Pubkey, accounts: &mut Vec<AccountInfo>, amount: u64) -> (r:
        Result<(), ProgramError>)
        ensures
            outcome_holds(
                mint_to_outcome(program_id@, infos(old(accounts)@), amount),
                r,
                infos(old(accounts)@),
                infos(final(accounts)@),
            ),
    {
        let ghost pre = infos(accounts@);
        if accounts.len() < 3 {
            return Err(ProgramError::NotEnoughAccountKeys);
        }
        let mint_info = &accounts[0];
        let destination_info = &accounts[1];
        let authority_info = &accounts[2];
        Self::check_account_owner(program_id, mint_info)?;
        Self::check_account_owner(program_id, destination_info)?;
        if !mint_info.is_writable || !destination_info.is_writable {
            return Err(TokenError::InvalidOwner.into());
        }
        let mut mint = read_mint(mint_info)?;
        match mint.mint_authority {
            None => {
                return Err(TokenError::InvalidMint.into());
            },
            Some(authority) => {
                Self::validate_owner(&authority, authority_info)?;
            },
        }
        let mut destination = read_account(destination_info)?;
        if !destination.mint.equals(&mint_info.key) {
            return Err(TokenError::MintMismatch.into());
        }
        let supply = match mint.supply.checked_add(amount) {
            Some(v) => v,
            None => {
                return Err(TokenError::Overflow.into());
            },
        };
        let balance = match destination.amount.checked_add(amount) {
            Some(v) => v,
            None => {
                return Err(TokenError::Overflow.into());
            },
        };
        mint.supply = supply;
        destination.amount = balance;
        set_data(accounts, 0, mint.to_bytes());
        assert(infos(accounts@)[1] == pre[1]);
        assert(accounts@[1]@ == infos(accounts@)[1]);
        set_data(accounts, 1, destination.to_bytes());
        Ok(())
    }

    /// Processes a Burn instruction on `[account, mint, owner]`.
    pub fn process_burn(program_id: &Pubkey, accounts: &mut Vec<AccountInfo>, amount: u64) -> (r:
        Result<(), ProgramError>)
        ensures
            outcome_holds(
                burn_outcome(program_id@, infos(old(accounts)@), amount),
                r,
                infos(old(accounts)@),
                infos(final(accounts)@),
            ),
    {
        let ghost pre = infos(accounts@);
        if accounts.len() < 3 {
            return Err(ProgramError::NotEnoughAccountKeys);
        }
        let account_info = &accounts[0];
        let mint_info = &accounts[1];
        let authority_info = &accounts[2];
        Self::check_account_owner(program_id, account_info)?;
        Self::check_account_owner(program_id, mint_info)?;
        if !account_info.is_writable || !mint_info.is_writable {
            return Err(TokenError::InvalidOwner.into());
        }
        let mut account = read_account(account_info)?;
        if account.is_frozen {
            return Err(TokenError::AccountFrozen.into());
        }
        let mut mint = read_mint(mint_info)?;
        if !account.mint.equals(&mint_info.key) {
            return Err(TokenError::MintMismatch.into());
        }
        Self::validate_owner(&account.owner, authority_info)?;
        if account.amount < amount {
            return Err(TokenError::InsufficientFunds.into());
        }
        if mint.supply < amount {
            return Err(TokenError::Overflow.into());
        }
        account.amount = account.amount - amount;
        mint.supply = mint.supply - amount;
        set_data(accounts, 0, account.to_bytes());
        assert(infos(accounts@)[1] == pre[1]);
        assert(accounts@[1]@ == infos(accounts@)[1]);
        set_data(accounts, 1, mint.to_bytes());
        Ok(())
    }

    /// The checks that Approve and Revoke share.
    fn check_owner_action(program_id: &Pubkey, accounts: &Vec<AccountInfo>, owner_index: usize) -> (r:
        Result<Account, ProgramError>)
        requires
            0 < owner_index < accounts@.len(),
        ensures
            loaded_account(r, owner_action_check(program_id@, infos(accounts@), owner_index as int)),
    {
        let source_info = &accounts[0];
        let owner_info = &accounts[owner_index];
        Self::check_account_owner(program_id, source_info)?;
        if !source_info.is_writable {
            return Err(TokenError::InvalidOwner.into());
        }
        let account = read_account(source_info)?;
        if account.is_frozen {
            return Err(TokenError::AccountFrozen.into());
        }
        Self::validate_owner(&account.owner, owner_info)?;
        Ok(account)
    }

    /// Processes an Approve instruction on `[source, delegate, owner]`.
    pub fn process_approve(program_id: &Pubkey, accounts: &mut Vec<AccountInfo>, amount: u64) -> (r:
        Result<(), ProgramError>)
        ensures
            outcome_holds(
                approve_outcome(program_id@, infos(old(accounts)@), amount),
                r,
                infos(old(accounts)@),
                infos(final(accounts)@),
            ),
    {
        if accounts.len() < 3 {
            return Err(ProgramError::NotEnoughAccountKeys);
        }
        let mut account = Self::check_owner_action(program_id, accounts, 2)?;
        let delegate = accounts[1].key;
        account.delegate = Some(delegate);
        account.delegated_amount = amount;
        set_data(accounts, 0, account.to_bytes());
        Ok(())
    }

    /// Processes a Revoke instruction on `[source, owner]`.
    pub fn process_revoke(program_id: &Pubkey, accounts: &mut Vec<AccountInfo>) -> (r: Result<
        (),
        ProgramError,
    >)
        ensures
            outcome_holds(
                revoke_outcome(program_id@, infos(old(accounts)@)),
                r,
                infos(old(accounts)@),
                infos(final(accounts)@),
            ),
    {
        if accounts.len() < 2 {
            return Err(ProgramError::NotEnoughAccountKeys);
        }
        let mut account = Self::check_owner_action(program_id, accounts, 1)?;
        account.delegate = None;
        account.delegated_amount = 0;
        set_data(accounts, 0, account.to_bytes());
        Ok(())
    }

    /// Processes a CloseAccount instruction on `[account, destination, owner]`.
    pub fn process_close_account(program_id: &Pubkey, accounts: &mut Vec<AccountInfo>) -> (r:
        Result<(), ProgramError>)
        ensures
            outcome_holds(
                close_account_outcome(program_id@, infos(old(accounts)@)),
                r,
                infos(old(accounts)@),
                infos(final(accounts)@),
            ),
    {
        let ghost pre = infos(accounts@);
        if accounts.len() < 3 {
            return Err(ProgramError::NotEnoughAccountKeys);
        }
        let source_info = &accounts[0];
        let destination_info = &accounts[1];
        let authority_info = &accounts[2];
        if source_info.key.equals(&destination_info.key) {
            return Err(ProgramError::InvalidAccountData);
        }
        Self::check_account_owner(program_id, source_info)?;
        let source = read_account(source_info)?;
        if source.is_native.is_none() && source.amount != 0 {
            return Err(TokenError::InvalidState.into());
        }
        Self::validate_owner(&source.owner, authority_info)?;
        let source_lamports = source_info.lamports;
        let destination_lamports = match destination_info.lamports.checked_add(source_lamports) {
            Some(v) => v,
            None => {
                return Err(TokenError::Overflow.into());
            },
        };
        let len = source_info.data.len();
        let mut cleared: Vec<u8> = Vec::new();
        let mut i: usize = 0;
        while i < len
            invariant
                i <= len,
                cleared@ == zeros(i as nat),
            decreases len - i,
        {
            cleared.push(0u8);
            i = i + 1;
            assert(cleared@ =~= zeros(i as nat));
        }
        accounts[1].lamports = destination_lamports;
        accounts[0].lamports = 0;
        accounts[0].owner = Pubkey::zeroed();
        accounts[0].data = cleared;
        assert(infos(accounts@) =~= close_account_outcome(program_id@, pre)->Ok_0);
        Ok(())
    }

    /// Freezes (`freeze`) or thaws the account of `[account, mint, freeze authority]`.
    fn process_toggle_freeze(program_id: &Pubkey, accounts: &mut Vec<AccountInfo>, freeze: bool) -> (r:
        Result<(), ProgramError>)
        ensures
            outcome_holds(
                freeze_outcome(program_id@, infos(old(accounts)@), freeze),
                r,
                infos(old(accounts)@),
                infos(final(accounts)@),
            ),
    {
        if accounts.len() < 3 {
            return Err(ProgramError::NotEnoughAccountKeys);
        }
        let account_info = &accounts[0];
        let mint_info = &accounts[1];
        let authority_info = &accounts[2];
        Self::check_account_owner(program_id, account_info)?;
        if !account_info.is_writable {
            return Err(TokenError::InvalidOwner.into());
        }
        let mut account = read_account(account_info)?;
        if account.is_frozen == freeze {
            return Err(TokenError::InvalidState.into());
        }
        if account.is_native.is_some() {
            return Err(TokenError::NonNativeNotSupported.into());
        }
        if !account.mint.equals(&mint_info.key) {
            return Err(TokenError::MintMismatch.into());
        }
        let mint = read_mint(mint_info)?;
        match mint.freeze_authority {
            None => {
                return Err(TokenError::MintCannotFreeze.into());
            },
            Some(authority) => {
                Self::validate_owner(&authority, authority_info)?;
            },
        }
        account.is_frozen = freeze;
        set_data(accounts, 0, account.to_bytes());
        Ok(())
    }

    /// Processes a FreezeAccount instruction on `[account, mint, freeze authority]`.
    pub fn process_freeze_account(program_id: &Pubkey, accounts: &mut Vec<AccountInfo>) -> (r:
        Result<(), ProgramError>)
        ensures
            outcome_holds(
                freeze_outcome(program_id@, infos(old(accounts)@), true),
                r,
                infos(old(accounts)@),
                infos(final(accounts)@),
            ),
    {
        Self::process_toggle_freeze(program_id, accounts, true)
    }

    /// Processes a ThawAccount instruction on `[account, mint, freeze authority]`.
    pub fn process_thaw_account(program_id: &Pubkey, accounts: &mut Vec<AccountInfo>) -> (r:
        Result<(), ProgramError>)
        ensures
            outcome_holds(
                freeze_outcome(program_id@, infos(old(accounts)@), false),
                r,
                infos(old(accounts)@),
                infos(final(accounts)@),
            ),
    {
        Self::process_toggle_freeze(program_id, accounts, false)
    }

    /// Processes a SyncNative instruction on `[account]`.
    pub fn process_sync_native(program_id: &Pubkey, accounts: &mut Vec<AccountInfo>) -> (r: Result<
        (),
        ProgramError,
    >)
        ensures
            outcome_holds(
                sync_native_outcome(program_id@, infos(old(accounts)@)),
                r,
                infos(old(accounts)@),
                infos(final(accounts)@),
            ),
    {
        if accounts.len() < 1 {
            return Err(ProgramError::NotEnoughAccountKeys);
        }
        let native_info = &accounts[0];
        Self::check_account_owner(program_id, native_info)?;
        let mut account = read_account(native_info)?;
        match account.is_native {
            None => Err(TokenError::NonNativeNotSupported.into()),
            Some(reserve) => {
                let new_amount = match native_info.lamports.checked_sub(reserve) {
                    Some(v) => v,
                    None => {
                        return Err(TokenError::Overflow.into());
                    },
                };
                if new_amount < account.amount {
                    return Err(TokenError::InvalidState.into());
                }
                account.amount = new_amount;
                set_data(accounts, 0, account.to_bytes());
                Ok(())
            },
        }
    }

    /// Processes a SetAuthority instruction on `[account or mint, current authority]`.
    pub fn process_set_authority(
        program_id: &Pubkey,
        accounts: &mut Vec<AccountInfo>,
        authority_type: AuthorityType,
        new_authority: Option<Pubkey>,
    ) -> (r: Result<(), ProgramError>)
        ensures
            outcome_holds(
                set_authority_outcome(
                    program_id@,
                    infos(old(accounts)@),
                    authority_type,
                    key_option_view(new_authority),
                ),
                r,
                infos(old(accounts)@),
                infos(final(accounts)@),
            ),
    {
        if accounts.len() < 2 {
            return Err(ProgramError::NotEnoughAccountKeys);
        }
        let info = &accounts[0];
        let authority_info = &accounts[1];
        Self::check_account_owner(program_id, info)?;
        if !info.is_writable {
            return Err(TokenError::InvalidOwner.into());
        }
        match authority_type {
            AuthorityType::AccountOwner => {
                let mut account = read_account(info)?;
                Self::validate_owner(&account.owner, authority_info)?;
                match new_authority {
                    None => Err(TokenError::InvalidInstruction.into()),
                    Some(owner) => {
                        account.owner = owner;
                        account.delegate = None;
                        account.delegated_amount = 0;
                        set_data(accounts, 0, account.to_bytes());
                        Ok(())
                    },
                }
            },
            AuthorityType::CloseAccount => Err(TokenError::InvalidInstruction.into()),
            AuthorityType::MintTokens => {
                let mut mint = read_mint(info)?;
                match mint.mint_authority {
                    None => Err(TokenError::InvalidMint.into()),
                    Some(current) => {
                        Self::validate_owner(&current, authority_info)?;
                        mint.mint_authority = new_authority;
                        set_data(accounts, 0, mint.to_bytes());
                        Ok(())
                    },
                }
            },
            AuthorityType::FreezeAccount => {
                let mut mint = read_mint(info)?;
                match mint.freeze_authority {
                    None => Err(TokenError::MintCannotFreeze.into()),
                    Some(current) => {
                        Self::validate_owner(&current, authority_info)?;
                        mint.freeze_authority = new_authority;
                        set_data(accounts, 0, mint.to_bytes());
                        Ok(())
                    },
                }
            },
        }
    }

    /// Applies a decoded instruction.
    pub fn process_instruction(
        program_id: &Pubkey,
        accounts: &mut Vec<AccountInfo>,
        instruction: TokenInstruction,
        minimum_balance: u64,
    ) -> (r: Result<(), ProgramError>)
        ensures
            outcome_holds(
                instruction_outcome(program_id@, infos(old(accounts)@), instruction@, minimum_balance),
                r,
                infos(old(accounts)@),
                infos(final(accounts)@),
            ),
    {
        match instruction {
            TokenInstruction::InitializeMint { decimals, mint_authority, freeze_authority } => {
                Self::process_initialize_mint(
                    program_id,
                    accounts,
                    decimals,
                    mint_authority,
                    freeze_authority,
                    minimum_balance,
                )
            },
            TokenInstruction::InitializeAccount => {
                Self::process_initialize_account(program_id, accounts, minimum_balance)
            },
            TokenInstruction::Transfer { amount } => {
                Self::process_transfer(program_id, accounts, amount, None)
            },
            TokenInstruction::TransferChecked { amount, decimals } => {
                Self::process_transfer(program_id, accounts, amount, Some(decimals))
            },
            TokenInstruction::Approve { amount } => {
                Self::process_approve(program_id, accounts, amount)
            },
            TokenInstruction::Revoke => Self::process_revoke(program_id, accounts),
            TokenInstruction::MintTo { amount } => {
                Self::process_mint_to(program_id, accounts, amount)
            },
            TokenInstruction::Burn { amount } => Self::process_burn(program_id, accounts, amount),
            TokenInstruction::CloseAccount => Self::process_close_account(program_id, accounts),
            TokenInstruction::FreezeAccount => Self::process_freeze_account(program_id, accounts),
            TokenInstruction::ThawAccount => Self::process_thaw_account(program_id, accounts),
            TokenInstruction::SyncNative => Self::process_sync_native(program_id, accounts),
            TokenInstruction::SetAuthority { authority_type, new_authority } => {
                Self::process_set_authority(program_id, accounts, authority_type, new_authority)
            },
        }
    }

    /// Decodes instruction data and applies the instruction;
    /// `minimum_balance` is the rent-exempt minimum for the data length of
    /// the first account, which only the initializing instructions read.
    pub fn process(
        program_id: &Pubkey,
        accounts: &mut Vec<AccountInfo>,
        input: &[u8],
        minimum_balance: u64,
    ) -> (r: Result<(), ProgramError>)
        ensures
            outcome_holds(
                process_outcome(program_id@, infos(old(accounts)@), input@, minimum_balance),
                r,
                infos(old(accounts)@),
                infos(final(accounts)@),
            ),
            r is Err ==> infos(final(accounts)@) == infos(old(accounts)@),
    {
        let instruction = TokenInstruction::unpack(input)?;
        Self::process_instruction(program_id, accounts, instruction, minimum_balance)
    }
}

} // verus!
