//! Mint and token-account records and their fixed-length binary layouts.
//!
//! An optional value is stored as a four-byte tag (`0` absent, `1` present)
//! followed by a fixed payload region: 32 bytes for a key, and 32 bytes for
//! an amount, whose first eight hold it little-endian and the rest zero.

use vstd::bytes::*;
use vstd::prelude::*;
use vstd::slice::*;

use crate::error::ProgramError;
use crate::pubkey::Pubkey;

verus! {

/// `n` zero bytes.
pub open spec fn zeros(n: nat) -> Seq<u8> {
    Seq::new(n, |i: int| 0u8)
}

/// The byte that stores a flag.
pub open spec fn bool_byte(b: bool) -> u8 {
    if b {
        1
    } else {
        0
    }
}

/// The flag that a byte stores, if it stores one.
pub open spec fn decode_bool(b: u8) -> Option<bool> {
    if b == 0 {
        Some(false)
    } else if b == 1 {
        Some(true)
    } else {
        None
    }
}

/// Tag of an absent optional value.
pub open spec fn tag_absent() -> Seq<u8> {
    seq![0u8, 0u8, 0u8, 0u8]
}

/// Tag of a present optional value.
pub open spec fn tag_present() -> Seq<u8> {
    seq![1u8, 0u8, 0u8, 0u8]
}

/// The 36 bytes that store an optional key.
pub open spec fn key_option_bytes(o: Option<Seq<u8>>) -> Seq<u8> {
    match o {
        Some(k) => tag_present() + k,
        None => zeros(36),
    }
}

/// The 36 bytes that store an optional amount.
pub open spec fn amount_option_bytes(o: Option<u64>) -> Seq<u8> {
    match o {
        Some(v) => tag_present() + spec_u64_to_le_bytes(v) + zeros(24),
        None => zeros(36),
    }
}

/// The optional key that 36 bytes store, if their tag is valid.
pub open spec fn decode_key_option(s: Seq<u8>) -> Option<Option<Seq<u8>>> {
    if s.subrange(0, 4) == tag_absent() {
        Some(None)
    } else if s.subrange(0, 4) == tag_present() {
        Some(Some(s.subrange(4, 36)))
    } else {
        None
    }
}

/// The optional amount that 36 bytes store, if their tag is valid.
pub open spec fn decode_amount_option(s: Seq<u8>) -> Option<Option<u64>> {
    if s.subrange(0, 4) == tag_absent() {
        Some(None)
    } else if s.subrange(0, 4) == tag_present() {
        Some(Some(spec_u64_from_le_bytes(s.subrange(4, 12))))
    } else {
        None
    }
}

/// The model of an optional key.
pub open spec fn key_option_view(o: Option<Pubkey>) -> Option<Seq<u8>> {
    match o {
        Some(k) => Some(k@),
        None => None,
    }
}

/// An optional key of the right length.
pub open spec fn key_option_wf(o: Option<Seq<u8>>) -> bool {
    match o {
        Some(k) => k.len() == 32,
        None => true,
    }
}

/// The model of a mint record.
pub struct MintModel {
    pub mint_authority: Option<Seq<u8>>,
    pub supply: u64,
    pub decimals: u8,
    pub is_initialized: bool,
    pub freeze_authority: Option<Seq<u8>>,
}

/// The model of a token-account record.
pub struct AccountModel {
    pub mint: Seq<u8>,
    pub owner: Seq<u8>,
    pub amount: u64,
    pub is_initialized: bool,
    pub is_native: Option<u64>,
    pub delegate: Option<Seq<u8>>,
    pub delegated_amount: u64,
    pub is_frozen: bool,
}

/// A mint model whose keys have the length of a key.
pub open spec fn mint_wf(m: MintModel) -> bool {
    key_option_wf(m.mint_authority) && key_option_wf(m.freeze_authority)
}

/// An account model whose keys have the length of a key.
pub open spec fn account_wf(a: AccountModel) -> bool {
    a.mint.len() == 32 && a.owner.len() == 32 && key_option_wf(a.delegate)
}

/// The 82 bytes that store a mint: authority, supply, decimals,
/// initialized flag, freeze authority.
pub open spec fn mint_bytes(m: MintModel) -> Seq<u8> {
    key_option_bytes(m.mint_authority) + spec_u64_to_le_bytes(m.supply) + seq![
        m.decimals,
        bool_byte(m.is_initialized),
    ] + key_option_bytes(m.freeze_authority)
}

/// The mint that bytes store, if they are a valid mint record.
pub open spec fn decode_mint(s: Seq<u8>) -> Option<MintModel> {
    if s.len() != 82 {
        None
    } else {
        match (
            decode_key_option(s.subrange(0, 36)),
            decode_bool(s[45]),
            decode_key_option(s.subrange(46, 82)),
        ) {
            (Some(mint_authority), Some(is_initialized), Some(freeze_authority)) => Some(
                MintModel {
                    mint_authority,
                    supply: spec_u64_from_le_bytes(s.subrange(36, 44)),
                    decimals: s[44],
                    is_initialized,
                    freeze_authority,
                },
            ),
            _ => None,
        }
    }
}

/// The 181 bytes that store an account: mint, owner, amount, initialized
/// flag, native reserve, delegate, delegated amount, frozen flag, and 27
/// reserved zero bytes.
pub open spec fn account_bytes(a: AccountModel) -> Seq<u8> {
    a.mint + a.owner + spec_u64_to_le_bytes(a.amount) + seq![bool_byte(a.is_initialized)]
        + amount_option_bytes(a.is_native) + key_option_bytes(a.delegate)
        + spec_u64_to_le_bytes(a.delegated_amount) + seq![bool_byte(a.is_frozen)] + zeros(27)
}

/// The account that bytes store, if they are a valid account record.
pub open spec fn decode_account(s: Seq<u8>) -> Option<AccountModel> {
    if s.len() != 181 {
        None
    } else {
        match (
            decode_bool(s[72]),
            decode_amount_option(s.subrange(73, 109)),
            decode_key_option(s.subrange(109, 145)),
            decode_bool(s[153]),
        ) {
            (Some(is_initialized), Some(is_native), Some(delegate), Some(is_frozen)) => Some(
                AccountModel {
                    mint: s.subrange(0, 32),
                    owner: s.subrange(32, 64),
                    amount: spec_u64_from_le_bytes(s.subrange(64, 72)),
                    is_initialized,
                    is_native,
                    delegate,
                    delegated_amount: spec_u64_from_le_bytes(s.subrange(145, 153)),
                    is_frozen,
                },
            ),
            _ => None,
        }
    }
}

/// Mint data.
#[derive(Clone, Copy, Debug, PartialEq)]
pub struct Mint {
    /// Authority that may mint new tokens; `None` disables minting for good.
    pub mint_authority: Option<Pubkey>,
    /// Total supply of tokens.
    pub supply: u64,
    /// Number of base 10 digits to the right of the decimal place.
    pub decimals: u8,
    /// Whether the record has been initialized.
    pub is_initialized: bool,
    /// Authority that may freeze accounts of this mint.
    pub freeze_authority: Option<Pubkey>,
}

/// Token-account data.
#[derive(Clone, Copy, Debug, PartialEq)]
pub struct Account {
    /// The mint of the tokens held.
    pub mint: Pubkey,
    /// The owner of the account.
    pub owner: Pubkey,
    /// The number of tokens held.
    pub amount: u64,
    /// Whether the record has been initialized.
    pub is_initialized: bool,
    /// For a wrapped native account, the rent-exempt reserve in lamports.
    pub is_native: Option<u64>,
    /// A key that may move up to `delegated_amount` tokens.
    pub delegate: Option<Pubkey>,
    /// The amount that the delegate may move.
    pub delegated_amount: u64,
    /// Whether transfers, burns and approvals are blocked.
    pub is_frozen: bool,
}

impl View for Mint {
    type V = MintModel;

    open spec fn view(&self) -> MintModel {
        MintModel {
            mint_authority: key_option_view(self.mint_authority),
            supply: self.supply,
            decimals: self.decimals,
            is_initialized: self.is_initialized,
            freeze_authority: key_option_view(self.freeze_authority),
        }
    }
}

impl View for Account {
    type V = AccountModel;

    open spec fn view(&self) -> AccountModel {
        AccountModel {
            mint: self.mint@,
            owner: self.owner@,
            amount: self.amount,
            is_initialized: self.is_initialized,
            is_native: self.is_native,
            delegate: key_option_view(self.delegate),
            delegated_amount: self.delegated_amount,
            is_frozen: self.is_frozen,
        }
    }
}

/// `r` is what decoding yields: the record `d` holds, or malformed data.
pub open spec fn mint_result(r: Result<Mint, ProgramError>, d: Option<MintModel>) -> bool {
    match d {
        Some(m) => r is Ok && r->Ok_0@ == m,
        None => r == Err::<Mint, ProgramError>(ProgramError::InvalidAccountData),
    }
}

/// `r` is what decoding yields: the record `d` holds, or malformed data.
pub open spec fn account_result(r: Result<Account, ProgramError>, d: Option<AccountModel>) -> bool {
    match d {
        Some(a) => r is Ok && r->Ok_0@ == a,
        None => r == Err::<Account, ProgramError>(ProgramError::InvalidAccountData),
    }
}

proof fn lemma_key_option_round_trip(o: Option<Seq<u8>>)
    requires
        key_option_wf(o),
    ensures
        key_option_bytes(o).len() == 36,
        decode_key_option(key_option_bytes(o)) == Some(o),
{
    let s = key_option_bytes(o);
    match o {
        Some(k) => {
            assert(s.subrange(0, 4) =~= tag_present());
            assert(s.subrange(0, 4) != tag_absent()) by {
                assert(s.subrange(0, 4)[0] != tag_absent()[0]);
            }
            assert(s.subrange(4, 36) =~= k);
        },
        None => {
            assert(s.subrange(0, 4) =~= tag_absent());
        },
    }
}

proof fn lemma_amount_option_round_trip(o: Option<u64>)
    ensures
        amount_option_bytes(o).len() == 36,
        decode_amount_option(amount_option_bytes(o)) == Some(o),
{
    lemma_auto_spec_u64_to_from_le_bytes();
    let s = amount_option_bytes(o);
    match o {
        Some(v) => {
            assert(s.subrange(0, 4) =~= tag_present());
            assert(s.subrange(0, 4) != tag_absent()) by {
                assert(s.subrange(0, 4)[0] != tag_absent()[0]);
            }
            assert(s.subrange(4, 12) =~= spec_u64_to_le_bytes(v));
        },
        None => {
            assert(s.subrange(0, 4) =~= tag_absent());
        },
    }
}

/// Decoding the bytes of a mint gives the mint back.
pub proof fn lemma_mint_round_trip(m: MintModel)
    requires
        mint_wf(m),
    ensures
        mint_bytes(m).len() == 82,
        decode_mint(mint_bytes(m)) == Some(m),
{
    lemma_auto_spec_u64_to_from_le_bytes();
    lemma_key_option_round_trip(m.mint_authority);
    lemma_key_option_round_trip(m.freeze_authority);
    let s = mint_bytes(m);
    assert(s.subrange(0, 36) =~= key_option_bytes(m.mint_authority));
    assert(s.subrange(36, 44) =~= spec_u64_to_le_bytes(m.supply));
    assert(s.subrange(46, 82) =~= key_option_bytes(m.freeze_authority));
    assert(s[44] == m.decimals);
    assert(s[45] == bool_byte(m.is_initialized));
}

/// Decoding the bytes of an account gives the account back.
pub proof fn lemma_account_round_trip(a: AccountModel)
    requires
        account_wf(a),
    ensures
        account_bytes(a).len() == 181,
        decode_account(account_bytes(a)) == Some(a),
{
    lemma_auto_spec_u64_to_from_le_bytes();
    lemma_amount_option_round_trip(a.is_native);
    lemma_key_option_round_trip(a.delegate);
    let s = account_bytes(a);
    assert(s.subrange(0, 32) =~= a.mint);
    assert(s.subrange(32, 64) =~= a.owner);
    assert(s.subrange(64, 72) =~= spec_u64_to_le_bytes(a.amount));
    assert(s[72] == bool_byte(a.is_initialized));
    assert(s.subrange(73, 109) =~= amount_option_bytes(a.is_native));
    assert(s.subrange(109, 145) =~= key_option_bytes(a.delegate));
    assert(s.subrange(145, 153) =~= spec_u64_to_le_bytes(a.delegated_amount));
    assert(s[153] == bool_byte(a.is_frozen));
}

/// Appends the bytes of a key.
pub(crate) fn push_key(out: &mut Vec<u8>, k: &Pubkey)
    ensures
        final(out)@ == old(out)@ + k@,
{
    let bytes = k.to_bytes();
    let ghost start = out@;
    let mut i: usize = 0;
    while i < 32
        invariant
            i <= 32,
            bytes@ == k@,
            bytes@.len() == 32,
            out@ == start + bytes@.subrange(0, i as int),
        decreases 32 - i,
    {
        out.push(bytes[i]);
        i = i + 1;
        assert(out@ =~= start + bytes@.subrange(0, i as int));
    }
    assert(bytes@.subrange(0, 32) =~= bytes@);
}

fn push_bytes(out: &mut Vec<u8>, bytes: &Vec<u8>)
    ensures
        final(out)@ == old(out)@ + bytes@,
{
    let ghost start = out@;
    let mut i: usize = 0;
    while i < bytes.len()
        invariant
            i <= bytes@.len(),
            out@ == start + bytes@.subrange(0, i as int),
        decreases bytes@.len() - i,
    {
        out.push(bytes[i]);
        i = i + 1;
        assert(out@ =~= start + bytes@.subrange(0, i as int));
    }
    assert(bytes@.subrange(0, bytes@.len() as int) =~= bytes@);
}

/// Appends the eight little-endian bytes of an amount.
pub(crate) fn push_u64(out: &mut Vec<u8>, v: u64)
    ensures
        final(out)@ == old(out)@ + spec_u64_to_le_bytes(v),
{
    let bytes = u64_to_le_bytes(v);
    push_bytes(out, &bytes);
}

fn push_zeros(out: &mut Vec<u8>, n: usize)
    ensures
        final(out)@ == old(out)@ + zeros(n as nat),
{
    let ghost start = out@;
    let mut i: usize = 0;
    while i < n
        invariant
            i <= n,
            out@ == start + zeros(i as nat),
        decreases n - i,
    {
        out.push(0u8);
        i = i + 1;
        assert(out@ =~= start + zeros(i as nat));
    }
}

fn push_tag(out: &mut Vec<u8>, present: bool)
    ensures
        final(out)@ == old(out)@ + (if present { tag_present() } else { tag_absent() }),
{
    let ghost start = out@;
    if present {
        out.push(1u8);
    } else {
        out.push(0u8);
    }
    out.push(0u8);
    out.push(0u8);
    out.push(0u8);
    assert(out@ =~= start + (if present { tag_present() } else { tag_absent() }));
}

/// Appends the 36 bytes that store an optional key.
fn pack_coption_key(src: &Option<Pubkey>, out: &mut Vec<u8>)
    ensures
        final(out)@ == old(out)@ + key_option_bytes(key_option_view(*src)),
{
    let ghost start = out@;
    match src {
        Some(key) => {
            push_tag(out, true);
            push_key(out, key);
            assert(out@ =~= start + key_option_bytes(key_option_view(*src)));
        },
        None => {
            push_zeros(out, 36);
        },
    }
}

/// Appends the 36 bytes that store an optional amount.
fn pack_coption_u64(src: &Option<u64>, out: &mut Vec<u8>)
    ensures
        final(out)@ == old(out)@ + amount_option_bytes(*src),
{
    let ghost start = out@;
    match src {
        Some(value) => {
            push_tag(out, true);
            push_u64(out, *value);
            push_zeros(out, 24);
            assert(out@ =~= start + amount_option_bytes(*src));
        },
        None => {
            push_zeros(out, 36);
        },
    }
}

/// Reads the tag of an optional value at `offset`: `Some(false)` when
/// absent, `Some(true)` when present, `None` when invalid.
fn read_tag(src: &[u8], offset: usize) -> (r: Option<bool>)
    requires
        offset + 4 <= src@.len(),
    ensures
        r == (if src@.subrange(offset as int, offset + 4) == tag_absent() {
            Some(false)
        } else if src@.subrange(offset as int, offset + 4) == tag_present() {
            Some(true)
        } else {
            None::<bool>
        }),
{
    // brings the bound of a slice's length into the proof
    let _len = src.len();
    let ghost t = src@.subrange(offset as int, offset + 4);
    assert(t[0] == src@[offset as int] && t[1] == src@[offset + 1] && t[2] == src@[offset + 2]
        && t[3] == src@[offset + 3]);
    if src[offset + 1] != 0 || src[offset + 2] != 0 || src[offset + 3] != 0 {
        assert(t != tag_absent() && t != tag_present()) by {
            assert(tag_absent()[1] == 0 && tag_absent()[2] == 0 && tag_absent()[3] == 0);
            assert(tag_present()[1] == 0 && tag_present()[2] == 0 && tag_present()[3] == 0);
        }
        None
    } else if src[offset] == 0 {
        assert(t =~= tag_absent());
        Some(false)
    } else if src[offset] == 1 {
        assert(t =~= tag_present());
        assert(t != tag_absent()) by {
            assert(t[0] != tag_absent()[0]);
        }
        Some(true)
    } else {
        assert(t != tag_absent() && t != tag_present()) by {
            assert(t[0] != tag_absent()[0]);
            assert(t[0] != tag_present()[0]);
        }
        None
    }
}

fn read_u64(src: &[u8], offset: usize) -> (r: u64)
    requires
        offset + 8 <= src@.len(),
    ensures
        r == spec_u64_from_le_bytes(src@.subrange(offset as int, offset + 8)),
{
    // brings the bound of a slice's length into the proof
    let _len = src.len();
    let part = slice_subrange(src, offset, offset + 8);
    u64_from_le_bytes(part)
}

fn read_bool(src: &[u8], offset: usize) -> (r: Result<bool, ProgramError>)
    requires
        offset < src@.len(),
    ensures
        match decode_bool(src@[offset as int]) {
            Some(b) => r == Ok::<bool, ProgramError>(b),
            None => r == Err::<bool, ProgramError>(ProgramError::InvalidAccountData),
        },
{
    let b = src[offset];
    if b == 0 {
        Ok(false)
    } else if b == 1 {
        Ok(true)
    } else {
        Err(ProgramError::InvalidAccountData)
    }
}

/// Reads the optional key stored in the 36 bytes at `offset`.
fn unpack_coption_key(src: &[u8], offset: usize) -> (r: Result<Option<Pubkey>, ProgramError>)
    requires
        offset + 36 <= src@.len(),
    ensures
        match decode_key_option(src@.subrange(offset as int, offset + 36)) {
            Some(o) => r is Ok && key_option_view(r->Ok_0) == o,
            None => r == Err::<Option<Pubkey>, ProgramError>(ProgramError::InvalidAccountData),
        },
{
    // brings the bound of a slice's length into the proof
    let _len = src.len();
    let ghost s = src@.subrange(offset as int, offset + 36);
    assert(s.subrange(0, 4) =~= src@.subrange(offset as int, offset + 4));
    assert(s.subrange(4, 36) =~= src@.subrange(offset + 4, offset + 36));
    match read_tag(src, offset) {
        Some(false) => Ok(None),
        Some(true) => Ok(Some(Pubkey::read_from(src, offset + 4))),
        None => Err(ProgramError::InvalidAccountData),
    }
}

/// Reads the optional amount stored in the 36 bytes at `offset`.
fn unpack_coption_u64(src: &[u8], offset: usize) -> (r: Result<Option<u64>, ProgramError>)
    requires
        offset + 36 <= src@.len(),
    ensures
        match decode_amount_option(src@.subrange(offset as int, offset + 36)) {
            Some(o) => r == Ok::<Option<u64>, ProgramError>(o),
            None => r == Err::<Option<u64>, ProgramError>(ProgramError::InvalidAccountData),
        },
{
    // brings the bound of a slice's length into the proof
    let _len = src.len();
    let ghost s = src@.subrange(offset as int, offset + 36);
    assert(s.subrange(0, 4) =~= src@.subrange(offset as int, offset + 4));
    assert(s.subrange(4, 12) =~= src@.subrange(offset + 4, offset + 12));
    match read_tag(src, offset) {
        Some(false) => Ok(None),
        Some(true) => Ok(Some(read_u64(src, offset + 4))),
        None => Err(ProgramError::InvalidAccountData),
    }
}

impl Mint {
    /// Length of a stored mint.
    pub const LEN: usize = 82;

    /// Whether the record has been initialized.
    pub fn is_initialized(&self) -> (r: bool)
        ensures
            r == self.is_initialized,
    {
        self.is_initialized
    }

    /// The bytes that store this mint.
    pub fn to_bytes(&self) -> (r: Vec<u8>)
        ensures
            r@ == mint_bytes(self@),
            r@.len() == Self::LEN,
    {
        let mut out: Vec<u8> = Vec::new();
        pack_coption_key(&self.mint_authority, &mut out);
        push_u64(&mut out, self.supply);
        out.push(self.decimals);
        out.push(if self.is_initialized { 1u8 } else { 0u8 });
        pack_coption_key(&self.freeze_authority, &mut out);
        proof {
            lemma_mint_round_trip(self@);
        }
        assert(out@ =~= mint_bytes(self@));
        out
    }

    /// Stores this mint in `dst`, which has the length of a mint.
    pub fn pack_into_slice(&self, dst: &mut Vec<u8>)
        requires
            old(dst)@.len() == Self::LEN,
        ensures
            final(dst)@ == mint_bytes(self@),
    {
        *dst = self.to_bytes();
    }

    /// Reads a mint from `src`, initialized or not.
    pub fn unpack_from_slice(src: &[u8]) -> (r: Result<Mint, ProgramError>)
        ensures
            mint_result(r, decode_mint(src@)),
    {
        if src.len() != Self::LEN {
            return Err(ProgramError::InvalidAccountData);
        }
        let mint_authority = unpack_coption_key(src, 0)?;
        let supply = read_u64(src, 36);
        let decimals = src[44];
        let is_initialized = read_bool(src, 45)?;
        let freeze_authority = unpack_coption_key(src, 46)?;
        Ok(Mint { mint_authority, supply, decimals, is_initialized, freeze_authority })
    }

    /// Reads a mint from `src` without requiring it to be initialized.
    pub fn unpack_unchecked(src: &[u8]) -> (r: Result<Mint, ProgramError>)
        ensures
            mint_result(r, decode_mint(src@)),
    {
        Self::unpack_from_slice(src)
    }

    /// Reads an initialized mint from `src`.
    pub fn unpack(src: &[u8]) -> (r: Result<Mint, ProgramError>)
        ensures
            match decode_mint(src@) {
                Some(m) => if m.is_initialized {
                    r is Ok && r->Ok_0@ == m
                } else {
                    r == Err::<Mint, ProgramError>(ProgramError::UninitializedAccount)
                },
                None => r == Err::<Mint, ProgramError>(ProgramError::InvalidAccountData),
            },
    {
        let mint = Self::unpack_from_slice(src)?;
        if !mint.is_initialized {
            return Err(ProgramError::UninitializedAccount);
        }
        Ok(mint)
    }

    /// Stores `src` in `dst`, which must have the length of a mint.
    pub fn pack(src: Mint, dst: &mut Vec<u8>) -> (r: Result<(), ProgramError>)
        ensures
            old(dst)@.len() == Self::LEN ==> r is Ok && final(dst)@ == mint_bytes(src@),
            old(dst)@.len() != Self::LEN ==> r == Err::<(), ProgramError>(
                ProgramError::InvalidAccountData,
            ) && final(dst)@ == old(dst)@,
    {
        if dst.len() != Self::LEN {
            return Err(ProgramError::InvalidAccountData);
        }
        src.pack_into_slice(dst);
        Ok(())
    }
}

impl Account {
    /// Length of a stored account.
    pub const LEN: usize = 181;

    /// Whether the record has been initialized.
    pub fn is_initialized(&self) -> (r: bool)
        ensures
            r == self.is_initialized,
    {
        self.is_initialized
    }

    /// The bytes that store this account.
    pub fn to_bytes(&self) -> (r: Vec<u8>)
        ensures
            r@ == account_bytes(self@),
            r@.len() == Self::LEN,
    {
        let mut out: Vec<u8> = Vec::new();
        push_key(&mut out, &self.mint);
        push_key(&mut out, &self.owner);
        push_u64(&mut out, self.amount);
        out.push(if self.is_initialized { 1u8 } else { 0u8 });
        pack_coption_u64(&self.is_native, &mut out);
        pack_coption_key(&self.delegate, &mut out);
        push_u64(&mut out, self.delegated_amount);
        out.push(if self.is_frozen { 1u8 } else { 0u8 });
        push_zeros(&mut out, 27);
        proof {
            lemma_account_round_trip(self@);
        }
        assert(out@ =~= account_bytes(self@));
        out
    }

    /// Stores this account in `dst`, which has the length of an account.
    pub fn pack_into_slice(&self, dst: &mut Vec<u8>)
        requires
            old(dst)@.len() == Self::LEN,
        ensures
            final(dst)@ == account_bytes(self@),
    {
        *dst = self.to_bytes();
    }

    /// Reads an account from `src`, initialized or not.
    pub fn unpack_from_slice(src: &[u8]) -> (r: Result<Account, ProgramError>)
        ensures
            account_result(r, decode_account(src@)),
    {
        if src.len() != Self::LEN {
            return Err(ProgramError::InvalidAccountData);
        }
        let mint = Pubkey::read_from(src, 0);
        let owner = Pubkey::read_from(src, 32);
        let amount = read_u64(src, 64);
        let is_initialized = read_bool(src, 72)?;
        let is_native = unpack_coption_u64(src, 73)?;
        let delegate = unpack_coption_key(src, 109)?;
        let delegated_amount = read_u64(src, 145);
        let is_frozen = read_bool(src, 153)?;
        Ok(
            Account {
                mint,
                owner,
                amount,
                is_initialized,
                is_native,
                delegate,
                delegated_amount,
                is_frozen,
            },
        )
    }

    /// Reads an account from `src` without requiring it to be initialized.
    pub fn unpack_unchecked(src: &[u8]) -> (r: Result<Account, ProgramError>)
        ensures
            account_result(r, decode_account(src@)),
    {
        Self::unpack_from_slice(src)
    }

    /// Reads an initialized account from `src`.
    pub fn unpack(src: &[u8]) -> (r: Result<Account, ProgramError>)
        ensures
            match decode_account(src@) {
                Some(a) => if a.is_initialized {
                    r is Ok && r->Ok_0@ == a
                } else {
                    r == Err::<Account, ProgramError>(ProgramError::UninitializedAccount)
                },
                None => r == Err::<Account, ProgramError>(ProgramError::InvalidAccountData),
            },
    {
        let account = Self::unpack_from_slice(src)?;
        if !account.is_initialized {
            return Err(ProgramError::UninitializedAccount);
        }
        Ok(account)
    }

    /// Stores `src` in `dst`, which must have the length of an account.
    pub fn pack(src: Account, dst: &mut Vec<u8>) -> (r: Result<(), ProgramError>)
        ensures
            old(dst)@.len() == Self::LEN ==> r is Ok && final(dst)@ == account_bytes(src@),
            old(dst)@.len() != Self::LEN ==> r == Err::<(), ProgramError>(
                ProgramError::InvalidAccountData,
            ) && final(dst)@ == old(dst)@,
    {
        if dst.len() != Self::LEN {
            return Err(ProgramError::InvalidAccountData);
        }
        src.pack_into_slice(dst);
        Ok(())
    }
}

} // verus!
