use solana_rent::Rent;
use spl_token::account_info::AccountInfo;
use spl_token::error::{ProgramError, TokenError};
use spl_token::instruction::{AuthorityType, TokenInstruction};
use spl_token::processor::Processor;
use spl_token::pubkey::Pubkey;
use spl_token::state::{Account, Mint};
use spl_token::{check_id, check_program_account, id, native_mint};

fn key(n: u8) -> Pubkey {
    Pubkey::new_from_array([n; 32])
}

fn min_balance(len: usize) -> u64 {
    Rent::default().minimum_balance(len)
}

fn fresh(k: Pubkey, len: usize) -> AccountInfo {
    AccountInfo::new(k, false, true, min_balance(len), vec![0u8; len], id(), false)
}

fn wallet(k: Pubkey, is_signer: bool) -> AccountInfo {
    AccountInfo::new(k, is_signer, false, 0, vec![], Pubkey::zeroed(), false)
}

fn err(e: TokenError) -> ProgramError {
    ProgramError::Custom(e)
}

fn amount_ix(tag: u8, amount: u64) -> Vec<u8> {
    let mut v = vec![tag];
    v.extend_from_slice(&amount.to_le_bytes());
    v
}

fn init_mint_ix(decimals: u8, authority: Pubkey, freeze: Option<Pubkey>) -> Vec<u8> {
    let mut v = vec![0u8, decimals];
    v.extend_from_slice(&authority.to_bytes());
    match freeze {
        Some(f) => {
            v.push(1);
            v.extend_from_slice(&f.to_bytes());
        }
        None => v.push(0),
    }
    v
}

/// Runs instruction data on the given accounts with the rent-exempt minimum
/// of the first account's data length.
fn run(accounts: &mut Vec<AccountInfo>, data: &[u8]) -> Result<(), ProgramError> {
    let minimum = min_balance(accounts.first().map(|a| a.data.len()).unwrap_or(0));
    Processor::process(&id(), accounts, data, minimum)
}

fn account_of(info: &AccountInfo) -> Account {
    Account::unpack(&info.data).unwrap()
}

fn mint_of(info: &AccountInfo) -> Mint {
    Mint::unpack(&info.data).unwrap()
}

struct Ledger {
    mint: AccountInfo,
    a: AccountInfo,
    b: AccountInfo,
}

const AUTHORITY: u8 = 2;
const FREEZER: u8 = 3;
const OWNER_A: u8 = 4;
const OWNER_B: u8 = 5;
const DELEGATE: u8 = 6;

/// A mint with decimals 6 and a freeze authority, and two accounts of it.
fn ledger() -> Ledger {
    let mut accounts = vec![fresh(key(1), Mint::LEN)];
    run(&mut accounts, &init_mint_ix(6, key(AUTHORITY), Some(key(FREEZER)))).unwrap();
    let mint = accounts.remove(0);
    let mut make = |k: u8, owner: u8| {
        let mut accounts = vec![fresh(key(k), Account::LEN), mint.clone(), wallet(key(owner), false)];
        run(&mut accounts, &[1]).unwrap();
        accounts.remove(0)
    };
    let a = make(10, OWNER_A);
    let b = make(11, OWNER_B);
    Ledger { mint, a, b }
}

impl Ledger {
    fn mint_to_a(&mut self, amount: u64) -> Result<(), ProgramError> {
        let mut accounts = vec![self.mint.clone(), self.a.clone(), wallet(key(AUTHORITY), true)];
        let r = run(&mut accounts, &amount_ix(7, amount));
        self.mint = accounts[0].clone();
        self.a = accounts[1].clone();
        r
    }

    fn transfer_a_to_b(&mut self, amount: u64, authority: u8) -> Result<(), ProgramError> {
        let mut accounts = vec![self.a.clone(), self.b.clone(), wallet(key(authority), true)];
        let r = run(&mut accounts, &amount_ix(3, amount));
        self.a = accounts[0].clone();
        self.b = accounts[1].clone();
        r
    }

    fn burn_a(&mut self, amount: u64) -> Result<(), ProgramError> {
        let mut accounts = vec![self.a.clone(), self.mint.clone(), wallet(key(OWNER_A), true)];
        let r = run(&mut accounts, &amount_ix(8, amount));
        self.a = accounts[0].clone();
        self.mint = accounts[1].clone();
        r
    }

    fn approve_a(&mut self, amount: u64) -> Result<(), ProgramError> {
        let mut accounts = vec![self.a.clone(), wallet(key(DELEGATE), false), wallet(key(OWNER_A), true)];
        let r = run(&mut accounts, &amount_ix(2, amount));
        self.a = accounts[0].clone();
        r
    }

    fn revoke_a(&mut self) -> Result<(), ProgramError> {
        let mut accounts = vec![self.a.clone(), wallet(key(OWNER_A), true)];
        let r = run(&mut accounts, &[5]);
        self.a = accounts[0].clone();
        r
    }

    fn freeze_a(&mut self, tag: u8) -> Result<(), ProgramError> {
        let mut accounts = vec![self.a.clone(), self.mint.clone(), wallet(key(FREEZER), true)];
        let r = run(&mut accounts, &[tag]);
        self.a = accounts[0].clone();
        r
    }

    fn supply_matches(&self) -> bool {
        mint_of(&self.mint).supply == account_of(&self.a).amount + account_of(&self.b).amount
    }
}

#[test]
fn scenario_mint_then_transfer() {
    let mut l = ledger();
    assert_eq!(mint_of(&l.mint).decimals, 6);
    l.mint_to_a(1000).unwrap();
    l.transfer_a_to_b(500, OWNER_A).unwrap();
    assert_eq!(account_of(&l.a).amount, 500);
    assert_eq!(account_of(&l.b).amount, 500);
    assert_eq!(mint_of(&l.mint).supply, 1000);
}

#[test]
fn scenario_burn_lowers_supply() {
    let mut l = ledger();
    l.mint_to_a(1000).unwrap();
    l.burn_a(300).unwrap();
    assert_eq!(account_of(&l.a).amount, 700);
    assert_eq!(mint_of(&l.mint).supply, 700);
}

#[test]
fn scenario_close_with_balance_changes_nothing() {
    let mut l = ledger();
    l.mint_to_a(1000).unwrap();
    let before = l.a.clone();
    let dest = AccountInfo::new(key(7), false, true, 5, vec![], Pubkey::zeroed(), false);
    let mut accounts = vec![l.a.clone(), dest, wallet(key(OWNER_A), true)];
    assert_eq!(run(&mut accounts, &[10]), Err(err(TokenError::InvalidState)));
    assert_eq!(accounts[0].lamports, before.lamports);
    assert_eq!(accounts[0].data, before.data);
    assert_eq!(accounts[1].lamports, 5);
}

#[test]
fn scenario_second_initialize_mint_fails() {
    let mut accounts = vec![fresh(key(1), Mint::LEN)];
    run(&mut accounts, &init_mint_ix(2, key(2), None)).unwrap();
    let r = run(&mut accounts, &init_mint_ix(2, key(2), None));
    assert_eq!(r, Err(err(TokenError::AlreadyInitialized)));
}

#[test]
fn supply_stays_equal_to_balances() {
    let mut l = ledger();
    l.mint_to_a(5000).unwrap();
    assert!(l.supply_matches());
    l.transfer_a_to_b(1200, OWNER_A).unwrap();
    assert!(l.supply_matches());
    l.burn_a(800).unwrap();
    assert!(l.supply_matches());
    assert!(l.transfer_a_to_b(1_000_000, OWNER_A).is_err());
    assert!(l.supply_matches());
    assert_eq!(mint_of(&l.mint).supply, 4200);
}

#[test]
fn overdraft_fails_and_keeps_balances() {
    let mut l = ledger();
    l.mint_to_a(100).unwrap();
    let (a, b) = (l.a.data.clone(), l.b.data.clone());
    assert_eq!(l.transfer_a_to_b(101, OWNER_A), Err(err(TokenError::InsufficientFunds)));
    assert_eq!(l.a.data, a);
    assert_eq!(l.b.data, b);
    assert_eq!(l.burn_a(101), Err(err(TokenError::InsufficientFunds)));
    assert_eq!(l.a.data, a);
    l.transfer_a_to_b(100, OWNER_A).unwrap();
    assert_eq!(account_of(&l.a).amount, 0);
}

#[test]
fn rejected_instructions_leave_bytes_identical() {
    let mut l = ledger();
    l.mint_to_a(50).unwrap();
    let snapshot = |l: &Ledger| (l.mint.data.clone(), l.a.data.clone(), l.b.data.clone(), l.a.lamports);
    let before = snapshot(&l);
    assert!(l.transfer_a_to_b(10, OWNER_B).is_err());
    assert!(l.mint_to_a(u64::MAX).is_err());
    assert!(l.burn_a(51).is_err());
    assert!(l.freeze_a(13).is_err());
    assert_eq!(snapshot(&l), before);
}

#[test]
fn freeze_blocks_and_thaw_restores() {
    let mut l = ledger();
    l.mint_to_a(1000).unwrap();
    l.approve_a(10).unwrap();
    let before = l.a.data.clone();
    l.freeze_a(11).unwrap();
    assert!(account_of(&l.a).is_frozen);
    assert_eq!(l.transfer_a_to_b(1, OWNER_A), Err(err(TokenError::AccountFrozen)));
    assert_eq!(l.burn_a(1), Err(err(TokenError::AccountFrozen)));
    assert_eq!(l.approve_a(1), Err(err(TokenError::AccountFrozen)));
    assert_eq!(l.revoke_a(), Err(err(TokenError::AccountFrozen)));
    assert_eq!(l.freeze_a(11), Err(err(TokenError::InvalidState)));
    l.freeze_a(13).unwrap();
    assert_eq!(l.a.data, before);
    l.transfer_a_to_b(1, OWNER_A).unwrap();
    l.burn_a(1).unwrap();
    l.approve_a(1).unwrap();
    l.revoke_a().unwrap();
}

#[test]
fn delegate_allowance_decays_then_clears() {
    let mut l = ledger();
    l.mint_to_a(1000).unwrap();
    l.approve_a(500).unwrap();
    l.transfer_a_to_b(200, DELEGATE).unwrap();
    assert_eq!(account_of(&l.a).delegated_amount, 300);
    assert_eq!(account_of(&l.a).delegate, Some(key(DELEGATE)));
    l.transfer_a_to_b(300, DELEGATE).unwrap();
    assert_eq!(account_of(&l.a).delegated_amount, 0);
    assert_eq!(account_of(&l.a).delegate, None);
    assert_eq!(account_of(&l.a).amount, 500);
    assert_eq!(l.transfer_a_to_b(1, DELEGATE), Err(err(TokenError::InvalidOwner)));
}

#[test]
fn delegate_beyond_allowance_is_refused() {
    let mut l = ledger();
    l.mint_to_a(1000).unwrap();
    l.approve_a(100).unwrap();
    assert_eq!(l.transfer_a_to_b(101, DELEGATE), Err(err(TokenError::InvalidOwner)));
    l.approve_a(50).unwrap();
    assert_eq!(account_of(&l.a).delegated_amount, 50);
}

#[test]
fn self_transfer_is_a_no_op() {
    let mut l = ledger();
    l.mint_to_a(10).unwrap();
    l.approve_a(5).unwrap();
    let before = l.a.data.clone();
    let mut accounts = vec![l.a.clone(), l.a.clone(), wallet(key(DELEGATE), true)];
    run(&mut accounts, &amount_ix(3, 5)).unwrap();
    assert_eq!(accounts[0].data, before);
    assert_eq!(accounts[1].data, before);
}

#[test]
fn mint_to_overflow_fails() {
    let mut l = ledger();
    l.mint_to_a(u64::MAX).unwrap();
    assert_eq!(l.mint_to_a(1), Err(err(TokenError::Overflow)));
    assert_eq!(mint_of(&l.mint).supply, u64::MAX);
}

#[test]
fn mint_mismatch_between_accounts() {
    let l = ledger();
    let mut accounts = vec![fresh(key(20), Mint::LEN)];
    run(&mut accounts, &init_mint_ix(0, key(AUTHORITY), None)).unwrap();
    let other_mint = accounts.remove(0);
    let mut accounts = vec![fresh(key(21), Account::LEN), other_mint, wallet(key(OWNER_B), false)];
    run(&mut accounts, &[1]).unwrap();
    let c = accounts.remove(0);
    let mut accounts = vec![l.a.clone(), c, wallet(key(OWNER_A), true)];
    assert_eq!(run(&mut accounts, &amount_ix(3, 0)), Err(err(TokenError::MintMismatch)));
    let mut accounts = vec![l.mint.clone(), accounts[1].clone(), wallet(key(AUTHORITY), true)];
    assert_eq!(run(&mut accounts, &amount_ix(7, 1)), Err(err(TokenError::MintMismatch)));
}

#[test]
fn boundary_errors() {
    let l = ledger();
    let mut accounts = vec![l.a.clone(), l.b.clone()];
    assert_eq!(run(&mut accounts, &amount_ix(3, 1)), Err(ProgramError::NotEnoughAccountKeys));
    let mut foreign = l.a.clone();
    foreign.owner = key(99);
    let mut accounts = vec![foreign, l.b.clone(), wallet(key(OWNER_A), true)];
    assert_eq!(run(&mut accounts, &amount_ix(3, 1)), Err(ProgramError::IncorrectProgramId));
    let mut short = l.a.clone();
    short.data.pop();
    let mut accounts = vec![short, l.b.clone(), wallet(key(OWNER_A), true)];
    assert_eq!(run(&mut accounts, &amount_ix(3, 1)), Err(ProgramError::InvalidAccountData));
    let mut accounts = vec![l.a.clone(), l.b.clone(), wallet(key(OWNER_A), false)];
    assert_eq!(run(&mut accounts, &amount_ix(3, 1)), Err(err(TokenError::InvalidOwner)));
    let mut accounts = vec![fresh(key(30), Account::LEN), l.b.clone(), wallet(key(OWNER_A), true)];
    assert_eq!(run(&mut accounts, &amount_ix(3, 1)), Err(err(TokenError::NotInitialized)));
}

#[test]
fn initialize_needs_rent_exemption_and_a_mint() {
    let mut poor = fresh(key(1), Mint::LEN);
    poor.lamports -= 1;
    let mut accounts = vec![poor];
    assert_eq!(run(&mut accounts, &init_mint_ix(0, key(2), None)), Err(err(TokenError::NotRentExempt)));
    let mut accounts = vec![fresh(key(10), Account::LEN), fresh(key(1), Mint::LEN), wallet(key(4), false)];
    assert_eq!(run(&mut accounts, &[1]), Err(err(TokenError::InvalidMint)));
}

#[test]
fn new_account_fields() {
    let l = ledger();
    let a = account_of(&l.a);
    assert_eq!(a.mint, key(1));
    assert_eq!(a.owner, key(OWNER_A));
    assert_eq!(a.amount, 0);
    assert_eq!(a.is_native, None);
    assert_eq!(a.delegate, None);
    assert_eq!(a.delegated_amount, 0);
    assert!(!a.is_frozen);
}

fn native_setup(extra: u64) -> AccountInfo {
    let mut accounts = vec![fresh(native_mint::id(), Mint::LEN)];
    run(&mut accounts, &init_mint_ix(9, key(AUTHORITY), Some(key(FREEZER)))).unwrap();
    let mint = accounts.remove(0);
    let mut account = fresh(key(40), Account::LEN);
    account.lamports += extra;
    let mut accounts = vec![account, mint, wallet(key(OWNER_A), false)];
    run(&mut accounts, &[1]).unwrap();
    accounts.remove(0)
}

#[test]
fn native_account_wraps_lamports() {
    let reserve = min_balance(Account::LEN);
    let mut info = native_setup(10_000);
    let a = account_of(&info);
    assert_eq!(a.is_native, Some(reserve));
    assert_eq!(a.amount, 10_000);

    info.lamports += 500;
    let mut accounts = vec![info];
    run(&mut accounts, &[9]).unwrap();
    assert_eq!(account_of(&accounts[0]).amount, 10_500);

    accounts[0].lamports -= 1;
    assert_eq!(run(&mut accounts, &[9]), Err(err(TokenError::InvalidState)));
}

#[test]
fn native_account_cannot_freeze_but_closes_with_balance() {
    let info = native_setup(7);
    let mut accounts = vec![fresh(native_mint::id(), Mint::LEN)];
    run(&mut accounts, &init_mint_ix(9, key(AUTHORITY), Some(key(FREEZER)))).unwrap();
    let mint = accounts.remove(0);
    let mut accounts = vec![info.clone(), mint, wallet(key(FREEZER), true)];
    assert_eq!(run(&mut accounts, &[11]), Err(err(TokenError::NonNativeNotSupported)));

    let lamports = info.lamports;
    let dest = AccountInfo::new(key(7), false, true, 3, vec![], Pubkey::zeroed(), false);
    let mut accounts = vec![info, dest, wallet(key(OWNER_A), true)];
    run(&mut accounts, &[10]).unwrap();
    assert_eq!(accounts[0].lamports, 0);
    assert_eq!(accounts[1].lamports, lamports + 3);
    assert_eq!(accounts[0].owner, Pubkey::zeroed());
    assert_eq!(accounts[0].data, vec![0u8; Account::LEN]);
}

#[test]
fn sync_native_on_plain_account_fails() {
    let l = ledger();
    let mut accounts = vec![l.a.clone()];
    assert_eq!(run(&mut accounts, &[9]), Err(err(TokenError::NonNativeNotSupported)));
}

#[test]
fn close_account_into_itself_fails() {
    let l = ledger();
    let mut accounts = vec![l.a.clone(), l.a.clone(), wallet(key(OWNER_A), true)];
    assert_eq!(run(&mut accounts, &[10]), Err(ProgramError::InvalidAccountData));
}

#[test]
fn freeze_without_authority_reports_mint_cannot_freeze() {
    let mut accounts = vec![fresh(key(1), Mint::LEN)];
    run(&mut accounts, &init_mint_ix(0, key(2), None)).unwrap();
    let mint = accounts.remove(0);
    let mut accounts = vec![fresh(key(10), Account::LEN), mint.clone(), wallet(key(4), false)];
    run(&mut accounts, &[1]).unwrap();
    let mut accounts = vec![accounts.remove(0), mint, wallet(key(3), true)];
    assert_eq!(run(&mut accounts, &[11]), Err(err(TokenError::MintCannotFreeze)));
}

#[test]
fn set_authority_rules() {
    let l = ledger();
    let mut accounts = vec![l.mint.clone(), wallet(key(FREEZER), true)];
    let mut data = vec![6u8, 1, 1];
    data.extend_from_slice(&[42u8; 32]);
    run(&mut accounts, &data).unwrap();
    assert_eq!(mint_of(&accounts[0]).freeze_authority, Some(key(42)));
    assert_eq!(run(&mut accounts, &data), Err(err(TokenError::InvalidOwner)));

    let mut accounts = vec![l.a.clone(), wallet(key(OWNER_A), true)];
    assert_eq!(run(&mut accounts, &[6, 3, 0]), Err(err(TokenError::InvalidInstruction)));
    assert_eq!(run(&mut accounts, &[6, 2, 0]), Err(err(TokenError::InvalidInstruction)));
    assert_eq!(run(&mut accounts, &[6, 4, 0]), Err(err(TokenError::InvalidInstruction)));
}

#[test]
fn mint_layout_is_byte_exact() {
    let mint = Mint {
        mint_authority: Some(key(7)),
        supply: 0x0102030405060708,
        decimals: 9,
        is_initialized: true,
        freeze_authority: None,
    };
    let bytes = mint.to_bytes();
    assert_eq!(bytes.len(), 82);
    assert_eq!(&bytes[0..4], &[1, 0, 0, 0]);
    assert_eq!(&bytes[4..36], &[7u8; 32]);
    assert_eq!(&bytes[36..44], &[8, 7, 6, 5, 4, 3, 2, 1]);
    assert_eq!(bytes[44], 9);
    assert_eq!(bytes[45], 1);
    assert_eq!(&bytes[46..82], &[0u8; 36]);
    let back = Mint::unpack_from_slice(&bytes).unwrap();
    assert_eq!(back.mint_authority, Some(key(7)));
    assert_eq!(back.supply, 0x0102030405060708);
    assert_eq!(back.freeze_authority, None);
}

#[test]
fn account_layout_is_byte_exact() {
    let account = Account {
        mint: key(1),
        owner: key(2),
        amount: 300,
        is_initialized: true,
        is_native: Some(0x1122),
        delegate: Some(key(3)),
        delegated_amount: 5,
        is_frozen: true,
    };
    let bytes = account.to_bytes();
    assert_eq!(bytes.len(), 181);
    assert_eq!(&bytes[0..32], &[1u8; 32]);
    assert_eq!(&bytes[32..64], &[2u8; 32]);
    assert_eq!(&bytes[64..72], &300u64.to_le_bytes());
    assert_eq!(bytes[72], 1);
    assert_eq!(&bytes[73..77], &[1, 0, 0, 0]);
    assert_eq!(&bytes[77..85], &0x1122u64.to_le_bytes());
    assert_eq!(&bytes[85..109], &[0u8; 24]);
    assert_eq!(&bytes[109..113], &[1, 0, 0, 0]);
    assert_eq!(&bytes[113..145], &[3u8; 32]);
    assert_eq!(&bytes[145..153], &5u64.to_le_bytes());
    assert_eq!(bytes[153], 1);
    assert_eq!(&bytes[154..181], &[0u8; 27]);
    let back = Account::unpack(&bytes).unwrap();
    assert_eq!(back.is_native, Some(0x1122));
    assert_eq!(back.delegate, Some(key(3)));
    assert_eq!(back.delegated_amount, 5);
    assert!(back.is_frozen);
}

#[test]
fn malformed_records_are_rejected() {
    let mut bytes = vec![0u8; 82];
    assert!(Mint::unpack_unchecked(&bytes).is_ok());
    assert_eq!(Mint::unpack(&bytes).unwrap_err(), ProgramError::UninitializedAccount);
    bytes[45] = 2;
    assert_eq!(Mint::unpack_unchecked(&bytes).unwrap_err(), ProgramError::InvalidAccountData);
    bytes[45] = 1;
    bytes[1] = 1;
    assert_eq!(Mint::unpack_unchecked(&bytes).unwrap_err(), ProgramError::InvalidAccountData);
    assert_eq!(Mint::unpack_unchecked(&[0u8; 81]).unwrap_err(), ProgramError::InvalidAccountData);

    let mut bytes = vec![0u8; 181];
    assert!(Account::unpack_unchecked(&bytes).is_ok());
    bytes[153] = 7;
    assert_eq!(Account::unpack_unchecked(&bytes).unwrap_err(), ProgramError::InvalidAccountData);
    bytes[153] = 0;
    bytes[73] = 2;
    assert_eq!(Account::unpack_unchecked(&bytes).unwrap_err(), ProgramError::InvalidAccountData);
    assert_eq!(Account::unpack_unchecked(&[0u8; 165]).unwrap_err(), ProgramError::InvalidAccountData);

    let mint = Mint::unpack_unchecked(&[0u8; 82]).unwrap();
    let mut wrong = vec![0u8; 10];
    assert_eq!(Mint::pack(mint, &mut wrong), Err(ProgramError::InvalidAccountData));
    assert_eq!(wrong, vec![0u8; 10]);
}

#[test]
fn instruction_decoding() {
    let freeze = key(5);
    let data = init_mint_ix(6, key(4), Some(freeze));
    match TokenInstruction::unpack(&data).unwrap() {
        TokenInstruction::InitializeMint { decimals, mint_authority, freeze_authority } => {
            assert_eq!(decimals, 6);
            assert_eq!(mint_authority, key(4));
            assert_eq!(freeze_authority, Some(freeze));
        }
        _ => panic!("wrong instruction"),
    }
    assert!(matches!(TokenInstruction::unpack(&amount_ix(2, 9)), Ok(TokenInstruction::Approve { amount: 9 })));
    assert!(matches!(TokenInstruction::unpack(&amount_ix(3, 1000)), Ok(TokenInstruction::Transfer { amount: 1000 })));
    assert!(matches!(TokenInstruction::unpack(&amount_ix(7, 1)), Ok(TokenInstruction::MintTo { amount: 1 })));
    assert!(matches!(TokenInstruction::unpack(&amount_ix(8, 2)), Ok(TokenInstruction::Burn { amount: 2 })));
    let mut checked = amount_ix(12, 77);
    checked.push(6);
    assert!(matches!(
        TokenInstruction::unpack(&checked),
        Ok(TokenInstruction::TransferChecked { amount: 77, decimals: 6 })
    ));
    assert!(matches!(TokenInstruction::unpack(&[1]), Ok(TokenInstruction::InitializeAccount)));
    assert!(matches!(TokenInstruction::unpack(&[5]), Ok(TokenInstruction::Revoke)));
    assert!(matches!(TokenInstruction::unpack(&[9]), Ok(TokenInstruction::SyncNative)));
    assert!(matches!(TokenInstruction::unpack(&[10]), Ok(TokenInstruction::CloseAccount)));
    assert!(matches!(TokenInstruction::unpack(&[11]), Ok(TokenInstruction::FreezeAccount)));
    assert!(matches!(TokenInstruction::unpack(&[13]), Ok(TokenInstruction::ThawAccount)));
    assert!(matches!(
        TokenInstruction::unpack(&[6, 2, 0]),
        Ok(TokenInstruction::SetAuthority { authority_type: AuthorityType::AccountOwner, new_authority: None })
    ));
    let invalid = Err(err(TokenError::InvalidInstruction));
    for bad in [vec![], vec![4], vec![14], vec![3, 1, 2, 3], vec![12, 0, 0, 0, 0, 0, 0, 0, 0], vec![6, 9, 0], vec![6, 1, 1, 0]] {
        assert_eq!(TokenInstruction::unpack(&bad).map(|_| ()), invalid);
    }
    let mut short = init_mint_ix(6, key(4), None);
    short.pop();
    assert_eq!(TokenInstruction::unpack(&short).map(|_| ()), invalid);
}

#[test]
fn authority_type_bytes() {
    assert_eq!(AuthorityType::from_u8(0), Ok(AuthorityType::MintTokens));
    assert_eq!(AuthorityType::from_u8(1), Ok(AuthorityType::FreezeAccount));
    assert_eq!(AuthorityType::from_u8(2), Ok(AuthorityType::AccountOwner));
    assert_eq!(AuthorityType::from_u8(3), Ok(AuthorityType::CloseAccount));
    assert_eq!(AuthorityType::from_u8(4), Err(err(TokenError::InvalidInstruction)));
}

#[test]
fn error_codes_and_messages() {
    assert_eq!(TokenError::AlreadyInitialized.code(), 0);
    assert_eq!(TokenError::NotRentExempt.code(), 7);
    assert_eq!(TokenError::MintCannotFreeze.code(), 12);
    assert_eq!(TokenError::from_code(4), Some(TokenError::MintMismatch));
    assert_eq!(TokenError::from_code(13), None);
    assert_eq!(TokenError::InsufficientFunds.to_str(), "Error: Insufficient funds");
    assert_eq!(ProgramError::from(TokenError::Overflow), ProgramError::Custom(TokenError::Overflow));
}

#[test]
fn program_id_checks() {
    assert!(check_id(&id()));
    assert!(!check_id(&key(1)));
    assert_eq!(
        id().to_bytes(),
        [6, 221, 246, 225, 215, 101, 161, 147, 217, 203, 225, 70, 206, 235, 121, 172, 28, 180, 133, 237, 95, 91, 55,
         145, 58, 140, 245, 133, 126, 255, 0, 169]
    );
    let held = fresh(key(1), 0);
    assert_eq!(check_program_account(&held), Ok(()));
    let other = wallet(key(1), false);
    assert_eq!(check_program_account(&other), Err(ProgramError::IncorrectProgramId));
    assert_eq!(Processor::check_account_owner(&key(0), &other), Ok(()));
    assert!(Processor::cmp_pubkeys(&key(3), &key(3)));
    assert!(!Processor::cmp_pubkeys(&key(3), &key(4)));
}

#[test]
fn instruction_encoding_round_trips() {
    let all = vec![
        TokenInstruction::InitializeMint { decimals: 6, mint_authority: key(4), freeze_authority: Some(key(5)) },
        TokenInstruction::InitializeMint { decimals: 0, mint_authority: key(4), freeze_authority: None },
        TokenInstruction::InitializeAccount,
        TokenInstruction::Transfer { amount: 1000 },
        TokenInstruction::TransferChecked { amount: 200, decimals: 6 },
        TokenInstruction::Approve { amount: 500 },
        TokenInstruction::Revoke,
        TokenInstruction::MintTo { amount: u64::MAX },
        TokenInstruction::Burn { amount: 300 },
        TokenInstruction::CloseAccount,
        TokenInstruction::FreezeAccount,
        TokenInstruction::ThawAccount,
        TokenInstruction::SyncNative,
        TokenInstruction::SetAuthority { authority_type: AuthorityType::FreezeAccount, new_authority: Some(key(9)) },
        TokenInstruction::SetAuthority { authority_type: AuthorityType::MintTokens, new_authority: None },
    ];
    for ix in all {
        assert_eq!(TokenInstruction::unpack(&ix.pack()), Ok(ix));
    }
    assert_eq!(TokenInstruction::Transfer { amount: 1000 }.pack(), amount_ix(3, 1000));
    assert_eq!(TokenInstruction::ThawAccount.pack(), vec![13]);
    assert_eq!(
        TokenInstruction::InitializeMint { decimals: 6, mint_authority: key(4), freeze_authority: None }.pack(),
        init_mint_ix(6, key(4), None)
    );
}

#[test]
fn record_round_trips() {
    let mint = Mint {
        mint_authority: None,
        supply: 42,
        decimals: 2,
        is_initialized: true,
        freeze_authority: Some(key(8)),
    };
    assert_eq!(Mint::unpack(&mint.to_bytes()), Ok(mint));
    let account = Account {
        mint: key(1),
        owner: key(2),
        amount: u64::MAX,
        is_initialized: true,
        is_native: None,
        delegate: None,
        delegated_amount: 0,
        is_frozen: false,
    };
    assert_eq!(Account::unpack(&account.to_bytes()), Ok(account));
    let mut dst = vec![9u8; Account::LEN];
    Account::pack(account, &mut dst).unwrap();
    assert_eq!(dst, account.to_bytes());
}
