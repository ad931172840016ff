//! The accounts that an invocation works on, as the host hands them over.

use vstd::prelude::*;

use crate::pubkey::Pubkey;

verus! {

/// One account of an invocation: its address, what the host allows on it,
/// its lamport balance, its data, and the program that holds it.
#[derive(Clone, Debug)]
pub struct AccountInfo {
    /// The account's address.
    pub key: Pubkey,
    /// Whether the transaction was signed by this key.
    pub is_signer: bool,
    /// Whether the account may be written.
    pub is_writable: bool,
    /// The account's balance in lamports.
    pub lamports: u64,
    /// The account's data.
    pub data: Vec<u8>,
    /// The program that holds the account.
    pub owner: Pubkey,
    /// Whether the account holds a program.
    pub executable: bool,
}

/// The model of an account: its fields, with keys and data as byte sequences.
pub struct AccountInfoModel {
    pub key: Seq<u8>,
    pub is_signer: bool,
    pub is_writable: bool,
    pub lamports: u64,
    pub data: Seq<u8>,
    pub owner: Seq<u8>,
    pub executable: bool,
}

impl View for AccountInfo {
    type V = AccountInfoModel;

    open spec fn view(&self) -> AccountInfoModel {
        AccountInfoModel {
            key: self.key@,
            is_signer: self.is_signer,
            is_writable: self.is_writable,
            lamports: self.lamports,
            data: self.data@,
            owner: self.owner@,
            executable: self.executable,
        }
    }
}

/// The models of a list of accounts.
pub open spec fn infos(accounts: Seq<AccountInfo>) -> Seq<AccountInfoModel> {
    accounts.map_values(|a: AccountInfo| a@)
}

/// The account with its data replaced.
pub open spec fn with_data(info: AccountInfoModel, data: Seq<u8>) -> AccountInfoModel {
    AccountInfoModel { data, ..info }
}

impl AccountInfo {
    /// An account with the given fields.
    pub fn new(
        key: Pubkey,
        is_signer: bool,
        is_writable: bool,
        lamports: u64,
        data: Vec<u8>,
        owner: Pubkey,
        executable: bool,
    ) -> (r: AccountInfo)
        ensures
            r.key == key,
            r.is_signer == is_signer,
            r.is_writable == is_writable,
            r.lamports == lamports,
            r.data == data,
            r.owner == owner,
            r.executable == executable,
    {
        AccountInfo { key, is_signer, is_writable, lamports, data, owner, executable }
    }

    /// The length of the account's data.
    pub fn data_len(&self) -> (r: usize)
        ensures
            r == self.data@.len(),
    {
        self.data.len()
    }
}

/// Replaces the data of the account at `index`.
pub fn set_data(accounts: &mut Vec<AccountInfo>, index: usize, data: Vec<u8>)
    requires
        index < old(accounts)@.len(),
    ensures
        final(accounts)@.len() == old(accounts)@.len(),
        infos(final(accounts)@) == infos(old(accounts)@).update(
            index as int,
            with_data(old(accounts)@[index as int]@, data@),
        ),
{
    let ghost pre = infos(accounts@);
    let ghost new_data = data@;
    accounts[index].data = data;
    assert(infos(accounts@) =~= pre.update(index as int, with_data(pre[index as int], new_data)));
}

} // verus!
