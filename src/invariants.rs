//! Laws of the ledger, proved from the handlers' outcome functions.

use vstd::prelude::*;

use crate::account_info::AccountInfoModel;
use crate::error::{ProgramError, TokenError};
use crate::processor::{
    acts_as_delegate, approve_outcome, burn_outcome, freeze_outcome, load_account, mint_to_outcome,
    revoke_outcome, signed_by, token_error, transfer_destination_index, transfer_outcome,
};
use crate::state::{
    account_bytes, account_wf, decode_account, decode_mint, lemma_account_round_trip,
    lemma_mint_round_trip, mint_bytes, mint_wf, AccountModel, MintModel,
};

verus! {

/// The tokens of `mint` that an account holds: its balance if it is an
/// initialized token account of that mint, else nothing.
pub open spec fn balance_in(info: AccountInfoModel, mint: Seq<u8>) -> int {
    match decode_account(info.data) {
        Some(a) => if a.is_initialized && a.mint == mint {
            a.amount as int
        } else {
            0
        },
        None => 0,
    }
}

/// The tokens of `mint` held over a list of accounts.
pub open spec fn total_held(accounts: Seq<AccountInfoModel>, mint: Seq<u8>) -> int
    decreases accounts.len(),
{
    if accounts.len() == 0 {
        0
    } else {
        total_held(accounts.drop_last(), mint) + balance_in(accounts.last(), mint)
    }
}

/// The account at `mint_index` holds a mint whose supply is what the list
/// holds of it.
pub open spec fn supply_conserved(accounts: Seq<AccountInfoModel>, mint_index: int) -> bool {
    &&& 0 <= mint_index < accounts.len()
    &&& decode_mint(accounts[mint_index].data) matches Some(m)
    &&& m.supply == total_held(accounts, accounts[mint_index].key)
}

proof fn lemma_total_update(s: Seq<AccountInfoModel>, i: int, x: AccountInfoModel, mint: Seq<u8>)
    requires
        0 <= i < s.len(),
    ensures
        total_held(s.update(i, x), mint) == total_held(s, mint) - balance_in(s[i], mint)
            + balance_in(x, mint),
    decreases s.len(),
{
    let t = s.update(i, x);
    if i == s.len() - 1 {
        assert(t.drop_last() =~= s.drop_last());
    } else {
        lemma_total_update(s.drop_last(), i, x, mint);
        assert(t.drop_last() =~= s.drop_last().update(i, x));
    }
}

proof fn lemma_decoded_account_wf(s: Seq<u8>)
    requires
        decode_account(s) is Some,
    ensures
        account_wf(decode_account(s)->Some_0),
{
}

proof fn lemma_decoded_mint_wf(s: Seq<u8>)
    requires
        decode_mint(s) is Some,
    ensures
        mint_wf(decode_mint(s)->Some_0),
{
}

proof fn lemma_stored_account(info: AccountInfoModel, a: AccountModel, mint: Seq<u8>)
    requires
        account_wf(a),
    ensures
        decode_account(account_bytes(a)) == Some(a),
        decode_mint(account_bytes(a)) is None,
        balance_in(AccountInfoModel { data: account_bytes(a), ..info }, mint) == if a.is_initialized
            && a.mint == mint {
            a.amount as int
        } else {
            0
        },
{
    lemma_account_round_trip(a);
}

proof fn lemma_stored_mint(info: AccountInfoModel, m: MintModel, mint: Seq<u8>)
    requires
        mint_wf(m),
    ensures
        decode_mint(mint_bytes(m)) == Some(m),
        balance_in(AccountInfoModel { data: mint_bytes(m), ..info }, mint) == 0,
{
    lemma_mint_round_trip(m);
}

/// A transfer that succeeds changes no mint's total over the accounts, and
/// so keeps every mint's supply equal to what the accounts hold of it.
pub proof fn lemma_transfer_conserves_supply(
    program_id: Seq<u8>,
    pre: Seq<AccountInfoModel>,
    amount: u64,
    expected_decimals: Option<u8>,
    mint_index: int,
)
    requires
        transfer_outcome(program_id, pre, amount, expected_decimals) is Ok,
    ensures
        forall|mint: Seq<u8>|
            total_held(transfer_outcome(program_id, pre, amount, expected_decimals)->Ok_0, mint)
                == total_held(pre, mint),
        supply_conserved(pre, mint_index) ==> supply_conserved(
            transfer_outcome(program_id, pre, amount, expected_decimals)->Ok_0,
            mint_index,
        ),
{
    let post = transfer_outcome(program_id, pre, amount, expected_decimals)->Ok_0;
    let di = transfer_destination_index(expected_decimals is Some);
    let src_info = pre[0];
    let dst_info = pre[di];
    if src_info.key != dst_info.key {
        let src = load_account(src_info)->Ok_0;
        let dst = load_account(dst_info)->Ok_0;
        lemma_decoded_account_wf(src_info.data);
        lemma_decoded_account_wf(dst_info.data);
        let by_delegate = acts_as_delegate(src, pre[di + 1], amount);
        let new_src = crate::processor::debited(src, by_delegate, amount);
        let new_dst = AccountModel { amount: (dst.amount + amount) as u64, ..dst };
        let mid = pre.update(0, AccountInfoModel { data: account_bytes(new_src), ..src_info });
        assert forall|mint: Seq<u8>| total_held(post, mint) == total_held(pre, mint) by {
            lemma_stored_account(src_info, new_src, mint);
            lemma_stored_account(dst_info, new_dst, mint);
            lemma_total_update(pre, 0, AccountInfoModel { data: account_bytes(new_src), ..src_info }, mint);
            lemma_total_update(mid, di, AccountInfoModel { data: account_bytes(new_dst), ..dst_info }, mint);
        }
        if supply_conserved(pre, mint_index) {
            lemma_account_round_trip(new_src);
            lemma_account_round_trip(new_dst);
            assert(mint_index != 0 && mint_index != di);
            assert(post[mint_index] == pre[mint_index]);
        }
    }
}

/// A mint that succeeds raises the mint's supply and what the accounts hold
/// of it by the same amount, so it keeps them equal; every other mint's
/// total over the accounts stays as it was.
pub proof fn lemma_mint_to_conserves_supply(
    program_id: Seq<u8>,
    pre: Seq<AccountInfoModel>,
    amount: u64,
    mint_index: int,
)
    requires
        mint_to_outcome(program_id, pre, amount) is Ok,
        mint_index == 0 || pre[mint_index].key != pre[0].key,
    ensures
        total_held(mint_to_outcome(program_id, pre, amount)->Ok_0, pre[0].key) == total_held(
            pre,
            pre[0].key,
        ) + amount,
        forall|mint: Seq<u8>|
            mint != pre[0].key ==> total_held(mint_to_outcome(program_id, pre, amount)->Ok_0, mint)
                == total_held(pre, mint),
        supply_conserved(pre, mint_index) ==> supply_conserved(
            mint_to_outcome(program_id, pre, amount)->Ok_0,
            mint_index,
        ),
{
    let post = mint_to_outcome(program_id, pre, amount)->Ok_0;
    let mint_info = pre[0];
    let dst_info = pre[1];
    let m = decode_mint(mint_info.data)->Some_0;
    let dst = decode_account(dst_info.data)->Some_0;
    lemma_decoded_mint_wf(mint_info.data);
    lemma_decoded_account_wf(dst_info.data);
    let new_m = MintModel { supply: (m.supply + amount) as u64, ..m };
    let new_dst = AccountModel { amount: (dst.amount + amount) as u64, ..dst };
    let new_mint_info = AccountInfoModel { data: mint_bytes(new_m), ..mint_info };
    let new_dst_info = AccountInfoModel { data: account_bytes(new_dst), ..dst_info };
    let mid = pre.update(0, new_mint_info);
    assert(post == mid.update(1, new_dst_info));
    assert forall|mint: Seq<u8>|
        total_held(post, mint) == total_held(pre, mint) + (if mint == pre[0].key {
            amount as int
        } else {
            0
        }) by {
        lemma_stored_mint(mint_info, new_m, mint);
        lemma_stored_account(dst_info, new_dst, mint);
        lemma_total_update(pre, 0, new_mint_info, mint);
        lemma_total_update(mid, 1, new_dst_info, mint);
    }
    if supply_conserved(pre, mint_index) {
        lemma_mint_round_trip(new_m);
        lemma_account_round_trip(new_dst);
        if mint_index != 0 {
            assert(mint_index != 1);
            assert(post[mint_index] == pre[mint_index]);
        }
    }
}

/// A burn that succeeds lowers the mint's supply and what the accounts hold
/// of it by the same amount, so it keeps them equal; every other mint's
/// total over the accounts stays as it was.
pub proof fn lemma_burn_conserves_supply(
    program_id: Seq<u8>,
    pre: Seq<AccountInfoModel>,
    amount: u64,
    mint_index: int,
)
    requires
        burn_outcome(program_id, pre, amount) is Ok,
        mint_index == 1 || pre[mint_index].key != pre[1].key,
    ensures
        total_held(burn_outcome(program_id, pre, amount)->Ok_0, pre[1].key) == total_held(
            pre,
            pre[1].key,
        ) - amount,
        forall|mint: Seq<u8>|
            mint != pre[1].key ==> total_held(burn_outcome(program_id, pre, amount)->Ok_0, mint)
                == total_held(pre, mint),
        supply_conserved(pre, mint_index) ==> supply_conserved(
            burn_outcome(program_id, pre, amount)->Ok_0,
            mint_index,
        ),
{
    let post = burn_outcome(program_id, pre, amount)->Ok_0;
    let acc_info = pre[0];
    let mint_info = pre[1];
    let m = decode_mint(mint_info.data)->Some_0;
    let a = decode_account(acc_info.data)->Some_0;
    lemma_decoded_mint_wf(mint_info.data);
    lemma_decoded_account_wf(acc_info.data);
    let new_m = MintModel { supply: (m.supply - amount) as u64, ..m };
    let new_a = AccountModel { amount: (a.amount - amount) as u64, ..a };
    let new_acc_info = AccountInfoModel { data: account_bytes(new_a), ..acc_info };
    let new_mint_info = AccountInfoModel { data: mint_bytes(new_m), ..mint_info };
    let mid = pre.update(0, new_acc_info);
    assert(post == mid.update(1, new_mint_info));
    assert forall|mint: Seq<u8>|
        total_held(post, mint) == total_held(pre, mint) - (if mint == pre[1].key {
            amount as int
        } else {
            0
        }) by {
        lemma_stored_mint(mint_info, new_m, mint);
        lemma_stored_account(acc_info, new_a, mint);
        lemma_total_update(pre, 0, new_acc_info, mint);
        lemma_total_update(mid, 1, new_mint_info, mint);
    }
    if supply_conserved(pre, mint_index) {
        lemma_mint_round_trip(new_m);
        lemma_account_round_trip(new_a);
        if mint_index != 1 {
            assert(mint_index != 0);
            assert(post[mint_index] == pre[mint_index]);
        }
    }
}

/// A transfer between two accounts never takes more than the source holds:
/// when it succeeds the source held at least the amount, and afterwards it
/// holds that much less and the destination that much more.
pub proof fn lemma_transfer_moves_exactly(
    program_id: Seq<u8>,
    pre: Seq<AccountInfoModel>,
    amount: u64,
    expected_decimals: Option<u8>,
)
    requires
        transfer_outcome(program_id, pre, amount, expected_decimals) is Ok,
        pre[0].key != pre[transfer_destination_index(expected_decimals is Some)].key,
    ensures
        ({
            let di = transfer_destination_index(expected_decimals is Some);
            let post = transfer_outcome(program_id, pre, amount, expected_decimals)->Ok_0;
            let src = load_account(pre[0])->Ok_0;
            let dst = load_account(pre[di])->Ok_0;
            &&& src.amount >= amount
            &&& load_account(post[0]) is Ok
            &&& load_account(post[0])->Ok_0.amount == src.amount - amount
            &&& load_account(post[di]) is Ok
            &&& load_account(post[di])->Ok_0.amount == dst.amount + amount
        }),
{
    let di = transfer_destination_index(expected_decimals is Some);
    let src = load_account(pre[0])->Ok_0;
    let dst = load_account(pre[di])->Ok_0;
    lemma_decoded_account_wf(pre[0].data);
    lemma_decoded_account_wf(pre[di].data);
    let by_delegate = acts_as_delegate(src, pre[di + 1], amount);
    lemma_account_round_trip(crate::processor::debited(src, by_delegate, amount));
    lemma_account_round_trip(AccountModel { amount: (dst.amount + amount) as u64, ..dst });
}

/// A transfer of more than the source holds, between two accounts, fails,
/// and so leaves every account as it was. When the owner signs, the failure
/// is InsufficientFunds wherever a transfer of nothing would go through, and
/// otherwise the same error as that transfer of nothing.
pub proof fn lemma_transfer_overdraft_fails(
    program_id: Seq<u8>,
    pre: Seq<AccountInfoModel>,
    amount: u64,
    expected_decimals: Option<u8>,
)
    requires
        load_account(pre[0]) is Ok,
        load_account(pre[0])->Ok_0.amount < amount,
        pre[0].key != pre[transfer_destination_index(expected_decimals is Some)].key,
    ensures
        transfer_outcome(program_id, pre, amount, expected_decimals) is Err,
        signed_by(
            load_account(pre[0])->Ok_0.owner,
            pre[transfer_destination_index(expected_decimals is Some) + 1],
        ) ==> transfer_outcome(program_id, pre, amount, expected_decimals) == if transfer_outcome(
            program_id,
            pre,
            0,
            expected_decimals,
        ) is Ok {
            Err(token_error(TokenError::InsufficientFunds))
        } else {
            transfer_outcome(program_id, pre, 0, expected_decimals)
        },
{
    if transfer_outcome(program_id, pre, amount, expected_decimals) is Ok {
        lemma_transfer_moves_exactly(program_id, pre, amount, expected_decimals);
    }
}

/// A burn of more than the account holds fails, and so leaves every
/// account as it was: with InsufficientFunds wherever a burn of nothing
/// would go through, and otherwise with the same error as that burn of
/// nothing. A burn that succeeds lowers the balance by the amount.
pub proof fn lemma_burn_never_overdraws(program_id: Seq<u8>, pre: Seq<AccountInfoModel>, amount: u64)
    requires
        load_account(pre[0]) is Ok,
    ensures
        load_account(pre[0])->Ok_0.amount < amount ==> burn_outcome(program_id, pre, amount) == if burn_outcome(
            program_id,
            pre,
            0,
        ) is Ok {
            Err(token_error(TokenError::InsufficientFunds))
        } else {
            burn_outcome(program_id, pre, 0)
        },
        burn_outcome(program_id, pre, amount) is Ok ==> {
            let post = burn_outcome(program_id, pre, amount)->Ok_0;
            &&& load_account(post[0]) is Ok
            &&& load_account(post[0])->Ok_0.amount == load_account(pre[0])->Ok_0.amount - amount
        },
{
    if burn_outcome(program_id, pre, amount) is Ok {
        let a = load_account(pre[0])->Ok_0;
        lemma_decoded_account_wf(pre[0].data);
        lemma_account_round_trip(AccountModel { amount: (a.amount - amount) as u64, ..a });
    }
}

/// A frozen account cannot be the source of a transfer, a burn, an approval
/// or a revocation: each fails with AccountFrozen once the accounts are held
/// by the program and writable, and fails in any case.
pub proof fn lemma_frozen_account_blocked(
    program_id: Seq<u8>,
    pre: Seq<AccountInfoModel>,
    amount: u64,
    expected_decimals: Option<u8>,
)
    requires
        load_account(pre[0]) is Ok,
        load_account(pre[0])->Ok_0.is_frozen,
    ensures
        transfer_outcome(program_id, pre, amount, expected_decimals) is Err,
        burn_outcome(program_id, pre, amount) is Err,
        approve_outcome(program_id, pre, amount) is Err,
        revoke_outcome(program_id, pre) is Err,
        ({
            let di = transfer_destination_index(expected_decimals is Some);
            pre.len() >= di + 2 && pre[0].owner == program_id && pre[di].owner == program_id
                && pre[0].is_writable && pre[di].is_writable ==> transfer_outcome(
                program_id,
                pre,
                amount,
                expected_decimals,
            ) == Err::<Seq<AccountInfoModel>, ProgramError>(token_error(TokenError::AccountFrozen))
        }),
        pre.len() >= 3 && pre[0].owner == program_id && pre[1].owner == program_id
            && pre[0].is_writable && pre[1].is_writable ==> burn_outcome(program_id, pre, amount)
            == Err::<Seq<AccountInfoModel>, ProgramError>(token_error(TokenError::AccountFrozen)),
        pre.len() >= 3 && pre[0].owner == program_id && pre[0].is_writable ==> approve_outcome(
            program_id,
            pre,
            amount,
        ) == Err::<Seq<AccountInfoModel>, ProgramError>(token_error(TokenError::AccountFrozen)),
        pre.len() >= 2 && pre[0].owner == program_id && pre[0].is_writable ==> revoke_outcome(
            program_id,
            pre,
        ) == Err::<Seq<AccountInfoModel>, ProgramError>(token_error(TokenError::AccountFrozen)),
{
}

/// Freezing an account marks it frozen; thawing it again with the same
/// mint and authority then succeeds, and gives back the record as it was
/// before the freeze.
pub proof fn lemma_freeze_then_thaw(program_id: Seq<u8>, pre: Seq<AccountInfoModel>)
    requires
        freeze_outcome(program_id, pre, true) is Ok,
    ensures
        ({
            let mid = freeze_outcome(program_id, pre, true)->Ok_0;
            &&& load_account(mid[0]) is Ok
            &&& load_account(mid[0])->Ok_0.is_frozen
            &&& freeze_outcome(program_id, mid, false) is Ok
            &&& decode_account(freeze_outcome(program_id, mid, false)->Ok_0[0].data)
                == decode_account(pre[0].data)
        }),
{
    let a = load_account(pre[0])->Ok_0;
    lemma_decoded_account_wf(pre[0].data);
    let frozen = AccountModel { is_frozen: true, ..a };
    lemma_account_round_trip(frozen);
    lemma_account_round_trip(AccountModel { is_frozen: false, ..frozen });
    assert(AccountModel { is_frozen: false, ..frozen } == a);
}

/// A transfer between two accounts made by the source's delegate lowers
/// the delegated amount by what it moves, and removes the delegate once
/// nothing is left of it.
pub proof fn lemma_delegate_decay(
    program_id: Seq<u8>,
    pre: Seq<AccountInfoModel>,
    amount: u64,
    expected_decimals: Option<u8>,
)
    requires
        transfer_outcome(program_id, pre, amount, expected_decimals) is Ok,
        pre[0].key != pre[transfer_destination_index(expected_decimals is Some)].key,
        acts_as_delegate(
            load_account(pre[0])->Ok_0,
            pre[transfer_destination_index(expected_decimals is Some) + 1],
            amount,
        ),
    ensures
        ({
            let src = load_account(pre[0])->Ok_0;
            let post = transfer_outcome(program_id, pre, amount, expected_decimals)->Ok_0;
            let a = load_account(post[0])->Ok_0;
            &&& load_account(post[0]) is Ok
            &&& a.delegated_amount == src.delegated_amount - amount
            &&& a.delegate == if a.delegated_amount == 0 {
                None
            } else {
                src.delegate
            }
        }),
{
    let src = load_account(pre[0])->Ok_0;
    lemma_decoded_account_wf(pre[0].data);
    lemma_account_round_trip(crate::processor::debited(src, true, amount));
}

/// Approve makes the given key the delegate for exactly the given amount,
/// replacing any earlier delegation.
pub proof fn lemma_approve_sets_allowance(program_id: Seq<u8>, pre: Seq<AccountInfoModel>, amount: u64)
    requires
        approve_outcome(program_id, pre, amount) is Ok,
        pre[1].key.len() == 32,
    ensures
        ({
            let a = load_account(approve_outcome(program_id, pre, amount)->Ok_0[0])->Ok_0;
            &&& load_account(approve_outcome(program_id, pre, amount)->Ok_0[0]) is Ok
            &&& a.delegate == Some(pre[1].key)
            &&& a.delegated_amount == amount
        }),
{
    let a = load_account(pre[0])->Ok_0;
    lemma_decoded_account_wf(pre[0].data);
    lemma_account_round_trip(
        AccountModel { delegate: Some(pre[1].key), delegated_amount: amount, ..a },
    );
}

/// An instruction that moves, creates or destroys tokens.
pub enum SupplyChange {
    Transfer { amount: u64, expected_decimals: Option<u8> },
    MintTo { amount: u64 },
    Burn { amount: u64 },
}

/// The outcome of a supply change on a list of accounts.
pub open spec fn change_outcome(
    program_id: Seq<u8>,
    pre: Seq<AccountInfoModel>,
    change: SupplyChange,
) -> Result<Seq<AccountInfoModel>, ProgramError> {
    match change {
        SupplyChange::Transfer { amount, expected_decimals } => transfer_outcome(
            program_id,
            pre,
            amount,
            expected_decimals,
        ),
        SupplyChange::MintTo { amount } => mint_to_outcome(program_id, pre, amount),
        SupplyChange::Burn { amount } => burn_outcome(program_id, pre, amount),
    }
}

/// How much a supply change adds to the tokens of `mint`.
pub open spec fn change_delta(pre: Seq<AccountInfoModel>, change: SupplyChange, mint: Seq<u8>) -> int {
    match change {
        SupplyChange::Transfer { .. } => 0,
        SupplyChange::MintTo { amount } => if mint == pre[0].key {
            amount as int
        } else {
            0
        },
        SupplyChange::Burn { amount } => if mint == pre[1].key {
            -(amount as int)
        } else {
            0
        },
    }
}

/// No two accounts of the list share a key.
pub open spec fn keys_unique(accounts: Seq<AccountInfoModel>) -> bool {
    forall|i: int, j: int|
        0 <= i < accounts.len() && 0 <= j < accounts.len() && i != j ==> accounts[i].key
            != accounts[j].key
}

/// Every mint record of the list has the supply that the list holds of it.
pub open spec fn all_supplies_conserved(accounts: Seq<AccountInfoModel>) -> bool {
    forall|k: int|
        0 <= k < accounts.len() && (#[trigger] decode_mint(accounts[k].data)) is Some
            ==> supply_conserved(accounts, k)
}

proof fn lemma_change_effect(program_id: Seq<u8>, pre: Seq<AccountInfoModel>, change: SupplyChange)
    requires
        change_outcome(program_id, pre, change) is Ok,
        keys_unique(pre),
    ensures
        ({
            let post = change_outcome(program_id, pre, change)->Ok_0;
            &&& post.len() == pre.len()
            &&& forall|j: int| 0 <= j < pre.len() ==> (#[trigger] post[j]).key == pre[j].key
            &&& forall|mint: Seq<u8>|
                #[trigger] total_held(post, mint) == total_held(pre, mint) + change_delta(
                    pre,
                    change,
                    mint,
                )
            &&& forall|p: int|
                0 <= p < pre.len() && (#[trigger] decode_mint(pre[p].data)) is Some ==> {
                    &&& decode_mint(post[p].data) is Some
                    &&& decode_mint(post[p].data)->Some_0.supply == decode_mint(
                        pre[p].data,
                    )->Some_0.supply + change_delta(pre, change, pre[p].key)
                }
            &&& forall|mint: Seq<u8>|
                #[trigger] change_delta(pre, change, mint) != 0 ==> exists|p: int|
                    0 <= p < pre.len() && pre[p].key == mint
        }),
{
    let post = change_outcome(program_id, pre, change)->Ok_0;
    match change {
        SupplyChange::Transfer { amount, expected_decimals } => {
            lemma_transfer_conserves_supply(program_id, pre, amount, expected_decimals, 0);
            let di = transfer_destination_index(expected_decimals is Some);
            if pre[0].key != pre[di].key {
                let src = load_account(pre[0])->Ok_0;
                let dst = load_account(pre[di])->Ok_0;
                lemma_decoded_account_wf(pre[0].data);
                lemma_decoded_account_wf(pre[di].data);
                let by_delegate = acts_as_delegate(src, pre[di + 1], amount);
                lemma_account_round_trip(crate::processor::debited(src, by_delegate, amount));
                lemma_account_round_trip(AccountModel { amount: (dst.amount + amount) as u64, ..dst });
            }
        },
        SupplyChange::MintTo { amount } => {
            lemma_mint_to_conserves_supply(program_id, pre, amount, 0);
            let m = decode_mint(pre[0].data)->Some_0;
            let dst = decode_account(pre[1].data)->Some_0;
            lemma_decoded_mint_wf(pre[0].data);
            lemma_decoded_account_wf(pre[1].data);
            lemma_mint_round_trip(MintModel { supply: (m.supply + amount) as u64, ..m });
            lemma_account_round_trip(AccountModel { amount: (dst.amount + amount) as u64, ..dst });
            assert forall|mint: Seq<u8>| #[trigger]
                change_delta(pre, change, mint) != 0 implies exists|p: int|
                0 <= p < pre.len() && pre[p].key == mint by {
                assert(pre[0].key == mint);
            }
        },
        SupplyChange::Burn { amount } => {
            lemma_burn_conserves_supply(program_id, pre, amount, 1);
            let m = decode_mint(pre[1].data)->Some_0;
            let a = decode_account(pre[0].data)->Some_0;
            lemma_decoded_mint_wf(pre[1].data);
            lemma_decoded_account_wf(pre[0].data);
            lemma_mint_round_trip(MintModel { supply: (m.supply - amount) as u64, ..m });
            lemma_account_round_trip(AccountModel { amount: (a.amount - amount) as u64, ..a });
            assert forall|mint: Seq<u8>| #[trigger]
                change_delta(pre, change, mint) != 0 implies exists|p: int|
                0 <= p < pre.len() && pre[p].key == mint by {
                assert(pre[1].key == mint);
            }
        },
    }
}

/// Indices into a ledger: each in range, no two equal.
pub open spec fn valid_indices(ledger: Seq<AccountInfoModel>, indices: Seq<int>) -> bool {
    &&& forall|j: int| 0 <= j < indices.len() ==> 0 <= #[trigger] indices[j] < ledger.len()
    &&& forall|j: int, k: int|
        0 <= j < indices.len() && 0 <= k < indices.len() && j != k ==> indices[j] != indices[k]
}

/// The accounts of a ledger at the given indices, in their order.
pub open spec fn select(ledger: Seq<AccountInfoModel>, indices: Seq<int>) -> Seq<AccountInfoModel> {
    Seq::new(indices.len(), |j: int| ledger[indices[j]])
}

/// The ledger with the accounts of `list` written back at the given indices.
pub open spec fn write_back(
    ledger: Seq<AccountInfoModel>,
    indices: Seq<int>,
    list: Seq<AccountInfoModel>,
) -> Seq<AccountInfoModel>
    decreases indices.len(),
{
    if indices.len() == 0 || list.len() == 0 {
        ledger
    } else {
        write_back(ledger, indices.drop_last(), list.drop_last()).update(
            indices.last(),
            list.last(),
        )
    }
}

/// One invocation: the ledger's accounts at `indices` are handed to a supply
/// change, and what it leaves is written back.
pub struct Invocation {
    pub change: SupplyChange,
    pub indices: Seq<int>,
}

/// The ledger after an invocation, if it succeeds.
pub open spec fn invoke(program_id: Seq<u8>, ledger: Seq<AccountInfoModel>, inv: Invocation) -> Option<
    Seq<AccountInfoModel>,
> {
    if valid_indices(ledger, inv.indices) {
        match change_outcome(program_id, select(ledger, inv.indices), inv.change) {
            Ok(post) => Some(write_back(ledger, inv.indices, post)),
            Err(_) => None,
        }
    } else {
        None
    }
}

/// The ledger after a sequence of invocations, if every one succeeds.
pub open spec fn run(program_id: Seq<u8>, ledger: Seq<AccountInfoModel>, invs: Seq<Invocation>) -> Option<
    Seq<AccountInfoModel>,
>
    decreases invs.len(),
{
    if invs.len() == 0 {
        Some(ledger)
    } else {
        match run(program_id, ledger, invs.drop_last()) {
            Some(l) => invoke(program_id, l, invs.last()),
            None => None,
        }
    }
}

proof fn lemma_write_back_entries(
    ledger: Seq<AccountInfoModel>,
    indices: Seq<int>,
    list: Seq<AccountInfoModel>,
)
    requires
        valid_indices(ledger, indices),
        list.len() == indices.len(),
    ensures
        write_back(ledger, indices, list).len() == ledger.len(),
        forall|i: int|
            0 <= i < ledger.len() && (forall|j: int| 0 <= j < indices.len() ==> indices[j] != i)
                ==> #[trigger] write_back(ledger, indices, list)[i] == ledger[i],
        forall|j: int|
            0 <= j < indices.len() ==> #[trigger] write_back(ledger, indices, list)[indices[j]]
                == list[j],
    decreases indices.len(),
{
    if indices.len() > 0 {
        let n = indices.len() - 1;
        let rest = indices.drop_last();
        assert(valid_indices(ledger, rest));
        lemma_write_back_entries(ledger, rest, list.drop_last());
        let w = write_back(ledger, rest, list.drop_last());
        assert(write_back(ledger, indices, list) == w.update(indices[n], list[n]));
        assert forall|i: int|
            0 <= i < ledger.len() && (forall|j: int| 0 <= j < indices.len() ==> indices[j] != i)
                implies #[trigger] write_back(ledger, indices, list)[i] == ledger[i] by {
            assert(indices[n] != i);
            assert forall|j: int| 0 <= j < rest.len() implies rest[j] != i by {
                assert(indices[j] != i);
            }
        }
        assert forall|j: int| 0 <= j < indices.len() implies #[trigger] write_back(
            ledger,
            indices,
            list,
        )[indices[j]] == list[j] by {
            if j < n {
                assert(rest[j] == indices[j]);
                assert(indices[j] != indices[n]);
            }
        }
    }
}

proof fn lemma_write_back_total(
    ledger: Seq<AccountInfoModel>,
    indices: Seq<int>,
    list: Seq<AccountInfoModel>,
    mint: Seq<u8>,
)
    requires
        valid_indices(ledger, indices),
        list.len() == indices.len(),
    ensures
        total_held(write_back(ledger, indices, list), mint) == total_held(ledger, mint)
            + total_held(list, mint) - total_held(select(ledger, indices), mint),
    decreases indices.len(),
{
    if indices.len() == 0 {
        assert(select(ledger, indices).len() == 0);
    } else {
        let n = indices.len() - 1;
        let rest = indices.drop_last();
        assert(valid_indices(ledger, rest));
        lemma_write_back_total(ledger, rest, list.drop_last(), mint);
        lemma_write_back_entries(ledger, rest, list.drop_last());
        let w = write_back(ledger, rest, list.drop_last());
        assert forall|j: int| 0 <= j < rest.len() implies rest[j] != indices[n] by {
            assert(indices[j] != indices[n]);
        }
        assert(w[indices[n]] == ledger[indices[n]]);
        lemma_total_update(w, indices[n], list[n], mint);
        assert(select(ledger, indices).drop_last() =~= select(ledger, rest));
    }
}

proof fn lemma_invoke_conserves(program_id: Seq<u8>, ledger: Seq<AccountInfoModel>, inv: Invocation)
    requires
        invoke(program_id, ledger, inv) is Some,
        keys_unique(ledger),
        all_supplies_conserved(ledger),
    ensures
        keys_unique(invoke(program_id, ledger, inv)->Some_0),
        all_supplies_conserved(invoke(program_id, ledger, inv)->Some_0),
{
    let idx = inv.indices;
    let pre = select(ledger, idx);
    let post = change_outcome(program_id, pre, inv.change)->Ok_0;
    let after = write_back(ledger, idx, post);
    assert(keys_unique(pre)) by {
        assert forall|i: int, j: int|
            0 <= i < pre.len() && 0 <= j < pre.len() && i != j implies pre[i].key != pre[j].key by {
            assert(idx[i] != idx[j]);
        }
    }
    lemma_change_effect(program_id, pre, inv.change);
    lemma_write_back_entries(ledger, idx, post);
    assert forall|i: int| 0 <= i < after.len() implies #[trigger] after[i].key == ledger[i].key by {
        if exists|j: int| 0 <= j < idx.len() && idx[j] == i {
            let j = choose|j: int| 0 <= j < idx.len() && idx[j] == i;
            assert(after[idx[j]] == post[j]);
            assert(post[j].key == pre[j].key);
        }
    }
    assert(keys_unique(after)) by {
        assert forall|i: int, j: int|
            0 <= i < after.len() && 0 <= j < after.len() && i != j implies after[i].key
            != after[j].key by {
            assert(after[i].key == ledger[i].key);
            assert(after[j].key == ledger[j].key);
        }
    }
    assert forall|k: int|
        0 <= k < after.len() && (#[trigger] decode_mint(after[k].data)) is Some implies supply_conserved(
        after,
        k,
    ) by {
        let key = ledger[k].key;
        lemma_write_back_total(ledger, idx, post, key);
        assert(total_held(post, key) == total_held(pre, key) + change_delta(pre, inv.change, key));
        if exists|j: int| 0 <= j < idx.len() && idx[j] == k {
            let j = choose|j: int| 0 <= j < idx.len() && idx[j] == k;
            assert(after[k] == post[j]);
            assert(pre[j] == ledger[k]);
            if decode_mint(pre[j].data) is None {
                assert(decode_mint(post[j].data) is None) by {
                    lemma_no_new_mint(program_id, pre, inv.change, j);
                }
            }
            assert(decode_mint(ledger[k].data) is Some);
            assert(supply_conserved(ledger, k));
        } else {
            assert(after[k] == ledger[k]);
            assert(supply_conserved(ledger, k));
            if change_delta(pre, inv.change, key) != 0 {
                let p = choose|p: int| 0 <= p < pre.len() && pre[p].key == key;
                assert(ledger[idx[p]].key == key);
                assert(idx[p] != k);
            }
        }
    }
}

proof fn lemma_no_new_mint(
    program_id: Seq<u8>,
    pre: Seq<AccountInfoModel>,
    change: SupplyChange,
    j: int,
)
    requires
        change_outcome(program_id, pre, change) is Ok,
        0 <= j < pre.len(),
        decode_mint(pre[j].data) is None,
    ensures
        decode_mint(change_outcome(program_id, pre, change)->Ok_0[j].data) is None,
{
    let post = change_outcome(program_id, pre, change)->Ok_0;
    match change {
        SupplyChange::Transfer { amount, expected_decimals } => {
            let di = transfer_destination_index(expected_decimals is Some);
            if pre[0].key != pre[di].key {
                let src = load_account(pre[0])->Ok_0;
                let dst = load_account(pre[di])->Ok_0;
                lemma_decoded_account_wf(pre[0].data);
                lemma_decoded_account_wf(pre[di].data);
                let by_delegate = acts_as_delegate(src, pre[di + 1], amount);
                lemma_account_round_trip(crate::processor::debited(src, by_delegate, amount));
                lemma_account_round_trip(AccountModel { amount: (dst.amount + amount) as u64, ..dst });
            }
        },
        SupplyChange::MintTo { amount } => {
            let dst = decode_account(pre[1].data)->Some_0;
            lemma_decoded_account_wf(pre[1].data);
            lemma_account_round_trip(AccountModel { amount: (dst.amount + amount) as u64, ..dst });
        },
        SupplyChange::Burn { amount } => {
            let a = decode_account(pre[0].data)->Some_0;
            lemma_decoded_account_wf(pre[0].data);
            lemma_account_round_trip(AccountModel { amount: (a.amount - amount) as u64, ..a });
        },
    }
}

/// Conservation over any run: in a ledger whose accounts have distinct keys
/// and whose every mint has the supply that the ledger holds of it, any
/// sequence of successful transfers, mints and burns, each on accounts the
/// ledger hands over, keeps every mint's supply equal to the sum of the
/// balances of the initialized accounts of that mint, after every step.
pub proof fn lemma_run_conserves_supply(
    program_id: Seq<u8>,
    ledger: Seq<AccountInfoModel>,
    invs: Seq<Invocation>,
)
    requires
        keys_unique(ledger),
        all_supplies_conserved(ledger),
        run(program_id, ledger, invs) is Some,
    ensures
        keys_unique(run(program_id, ledger, invs)->Some_0),
        all_supplies_conserved(run(program_id, ledger, invs)->Some_0),
    decreases invs.len(),
{
    if invs.len() > 0 {
        lemma_run_conserves_supply(program_id, ledger, invs.drop_last());
        let l = run(program_id, ledger, invs.drop_last())->Some_0;
        lemma_invoke_conserves(program_id, l, invs.last());
    }
}

} // verus!
