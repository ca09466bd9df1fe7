//! Stored records: the mint of a token and an account that holds it.
//!
//! Each record has one canonical length and one byte layout. A buffer of any
//! other length, or with a flag byte that is neither 0 nor 1, is corrupt and
//! is rejected whole.
//!
//! | record    | bytes | layout                                          |
//! |-----------|-------|-------------------------------------------------|
//! | `Mint`    | 41    | authority `[0,32)`, supply `[32,40)`, flag `40` |
//! | `Account` | 65    | mint `[0,32)`, flag `32`, commitment `[33,65)`  |

use crate::error::CTokenError;
use crate::payload::PedersenComm;
use crate::pubkey::Pubkey;
use crate::wire::{
    borsh_bool, borsh_bool_decoded, borsh_u64, borsh_u64_decoded, decode_bool, decode_u64,
    encode_bool, encode_u64, lemma_borsh_bool_round_trip, lemma_borsh_u64_canonical,
    lemma_borsh_u64_round_trip,
};
use vstd::bytes::spec_u64_to_le_bytes_to_open;
use vstd::seq_lib::{commutative_foldl, lemma_fold_left_permutation};
use vstd::prelude::*;
use vstd::slice::slice_subrange;

verus! {

/// A public key as it is stored in a record: exactly its 32 bytes.
#[derive(Clone, Copy, Debug, PartialEq, Eq)]
pub struct BorshPubkey(pub Pubkey);

impl View for BorshPubkey {
    type V = Seq<u8>;

    open spec fn view(&self) -> Seq<u8> {
        self.0@
    }
}

impl BorshPubkey {
    /// The key inside the wrapper.
    pub fn deref(&self) -> (key: &Pubkey)
        ensures
            *key == self.0,
    {
        &self.0
    }

    /// Appends the 32 bytes of the key to `writer`.
    pub fn serialize(&self, writer: &mut Vec<u8>)
        ensures
            final(writer)@ == old(writer)@ + self@,
    {
        writer.extend_from_slice(self.0.as_bytes());
    }

    /// Reads a key from `buf`. Fails unless `buf` holds exactly 32 bytes.
    pub fn deserialize(buf: &[u8]) -> (key: Result<BorshPubkey, CTokenError>)
        ensures
            match key {
                Ok(k) => buf@.len() == 32 && k@ == buf@,
                Err(e) => buf@.len() != 32 && e == CTokenError::PubkeySizeMismatch,
            },
    {
        if buf.len() == 32 {
            Ok(BorshPubkey(Pubkey::new(buf)))
        } else {
            Err(CTokenError::PubkeySizeMismatch)
        }
    }
}

/// A token type: who may mint it and how much of it exists.
#[derive(Clone, Copy, Debug, PartialEq, Eq)]
pub struct Mint {
    /// The key that may mint new tokens.
    pub mint_authority: BorshPubkey,
    /// Total number of tokens minted so far. Unlike balances, it is public.
    pub supply: u64,
    /// Whether the record has been initialized.
    pub is_initialized: bool,
}

/// What a [`Mint`] holds, with its key as a byte sequence.
pub struct MintView {
    pub mint_authority: Seq<u8>,
    pub supply: u64,
    pub is_initialized: bool,
}

impl MintView {
    /// The key has the length of a key. Every view of a `Mint` is well formed.
    pub open spec fn wf(self) -> bool {
        self.mint_authority.len() == 32
    }

    /// The blank record: zero key, no supply, not initialized.
    pub open spec fn blank() -> MintView {
        MintView { mint_authority: Seq::new(32, |i: int| 0u8), supply: 0, is_initialized: false }
    }

    /// The stored form of the record: authority, supply, flag.
    pub open spec fn to_bytes(self) -> Seq<u8> {
        self.mint_authority + borsh_u64(self.supply) + borsh_bool(self.is_initialized)
    }

    /// The record that a buffer stores, if it stores one.
    pub open spec fn from_bytes(buf: Seq<u8>) -> Option<MintView> {
        if buf.len() != 41 {
            None
        } else {
            match (
                borsh_u64_decoded(buf.subrange(32, 40)),
                borsh_bool_decoded(buf.subrange(40, 41)),
            ) {
                (Some(supply), Some(is_initialized)) => Some(
                    MintView { mint_authority: buf.subrange(0, 32), supply, is_initialized },
                ),
                _ => None,
            }
        }
    }
}

impl View for Mint {
    type V = MintView;

    open spec fn view(&self) -> MintView {
        MintView {
            mint_authority: self.mint_authority@,
            supply: self.supply,
            is_initialized: self.is_initialized,
        }
    }
}

impl Default for Mint {
    /// The blank record: zero key, no supply, not initialized.
    fn default() -> (mint: Mint)
        ensures
            mint@ == MintView::blank(),
    {
        let mint = Mint {
            mint_authority: BorshPubkey(Pubkey([0u8; 32])),
            supply: 0,
            is_initialized: false,
        };
        assert(mint.mint_authority@ =~= Seq::new(32, |i: int| 0u8));
        mint
    }
}

impl Mint {
    /// Length of a stored mint.
    pub const LEN: usize = 41;

    /// Whether the record is live rather than blank storage.
    pub fn is_initialized(&self) -> (flag: bool)
        ensures
            flag == self.is_initialized,
    {
        self.is_initialized
    }

    /// Reads a mint from its stored form.
    ///
    /// Fails on a buffer that is not exactly 41 bytes long or whose flag byte
    /// is neither 0 nor 1.
    pub fn unpack_from_slice(src: &[u8]) -> (mint: Result<Mint, CTokenError>)
        ensures
            match mint {
                Ok(m) => MintView::from_bytes(src@) == Some(m@),
                Err(e) => MintView::from_bytes(src@) is None && e
                    == CTokenError::InvalidAccountData,
            },
    {
        if src.len() != Mint::LEN {
            return Err(CTokenError::InvalidAccountData);
        }
        let key = BorshPubkey::deserialize(slice_subrange(src, 0, 32));
        let supply = decode_u64(slice_subrange(src, 32, 40));
        let flag = decode_bool(slice_subrange(src, 40, 41));
        match (key, supply, flag) {
            (Ok(mint_authority), Some(supply), Some(is_initialized)) => Ok(
                Mint { mint_authority, supply, is_initialized },
            ),
            _ => Err(CTokenError::InvalidAccountData),
        }
    }

    /// Writes the stored form of the mint over `dst`, which has to be exactly
    /// 41 bytes long. [`Mint::unpack_from_slice`] reads the same mint back
    /// from it.
    pub fn pack_into_slice(&self, dst: &mut [u8])
        requires
            old(dst)@.len() == Mint::LEN,
        ensures
            final(dst)@ == self@.to_bytes(),
            final(dst)@.len() == Mint::LEN,
            MintView::from_bytes(final(dst)@) == Some(self@),
    {
        write_at(dst, 0, self.mint_authority.0.as_bytes());
        if let Some(supply) = encode_u64(self.supply) {
            proof {
                lemma_borsh_u64_round_trip(self.supply);
            }
            write_at(dst, 32, supply.as_slice());
        }
        if let Some(flag) = encode_bool(self.is_initialized) {
            write_at(dst, 40, flag.as_slice());
        }
        assert(dst@ =~= self@.to_bytes());
        proof {
            lemma_mint_round_trip(self@);
        }
    }

    /// The mint after an `InitializeMint` with the given authority: live,
    /// with no supply. There is none if the mint is already live.
    pub open spec fn spec_initialize(self, mint_authority: Pubkey) -> Option<Mint> {
        if self.is_initialized {
            None
        } else {
            Some(Mint { mint_authority: BorshPubkey(mint_authority), supply: 0, is_initialized: true })
        }
    }

    /// The mint after a verified `Mint` of `amount` tokens: the supply grows
    /// by the amount and nothing else changes. There is none if the mint is
    /// blank or the supply would no longer fit in 64 bits.
    pub open spec fn spec_increase_supply(self, amount: u64) -> Option<Mint> {
        if self.is_initialized && self.supply + amount <= u64::MAX {
            Some(Mint { supply: (self.supply + amount) as u64, ..self })
        } else {
            None
        }
    }

    /// The mint after verified `Mint` operations of the given amounts, one
    /// after the other. There is none if any of them is refused.
    pub open spec fn spec_increase_supply_all(self, amounts: Seq<u64>) -> Option<Mint> {
        amounts.fold_left(
            Some(self),
            |mint: Option<Mint>, amount: u64|
                match mint {
                    Some(m) => m.spec_increase_supply(amount),
                    None => None,
                },
        )
    }

    /// Applies an `InitializeMint`: a blank mint becomes live, with the given
    /// authority and no supply. A live mint is left alone and `None` is
    /// returned.
    pub fn initialize(&self, mint_authority: Pubkey) -> (next: Option<Mint>)
        ensures
            next == self.spec_initialize(mint_authority),
    {
        if self.is_initialized {
            None
        } else {
            Some(Mint { mint_authority: BorshPubkey(mint_authority), supply: 0, is_initialized: true })
        }
    }

    /// Applies a verified `Mint` of `amount` tokens: the supply of a live mint
    /// grows by the amount. Returns `None` for a blank mint, and when the
    /// supply would overflow.
    pub fn increase_supply(&self, amount: u64) -> (next: Option<Mint>)
        ensures
            next == self.spec_increase_supply(amount),
    {
        if !self.is_initialized {
            return None;
        }
        match self.supply.checked_add(amount) {
            Some(supply) => Some(
                Mint {
                    mint_authority: self.mint_authority,
                    supply,
                    is_initialized: self.is_initialized,
                },
            ),
            None => None,
        }
    }
}

/// A holder's balance of one token, kept as a commitment.
#[derive(Clone, Copy, Debug, PartialEq, Eq)]
pub struct Account {
    /// The mint whose tokens the account holds.
    pub mint: BorshPubkey,
    /// Whether the record has been initialized.
    pub is_initialized: bool,
    /// Commitment to the balance.
    pub comm: PedersenComm,
}

/// What an [`Account`] holds, with its key and commitment as byte sequences.
pub struct AccountView {
    pub mint: Seq<u8>,
    pub is_initialized: bool,
    pub comm: Seq<u8>,
}

impl AccountView {
    /// The key and the commitment have their lengths. Every view of an
    /// `Account` is well formed.
    pub open spec fn wf(self) -> bool {
        self.mint.len() == 32 && self.comm.len() == 32
    }

    /// The blank record: zero key, zero commitment, not initialized.
    pub open spec fn blank() -> AccountView {
        AccountView {
            mint: Seq::new(32, |i: int| 0u8),
            is_initialized: false,
            comm: Seq::new(32, |i: int| 0u8),
        }
    }

    /// The stored form of the record: mint, flag, commitment.
    pub open spec fn to_bytes(self) -> Seq<u8> {
        self.mint + borsh_bool(self.is_initialized) + self.comm
    }

    /// The record that a buffer stores, if it stores one.
    pub open spec fn from_bytes(buf: Seq<u8>) -> Option<AccountView> {
        if buf.len() != 65 {
            None
        } else {
            match borsh_bool_decoded(buf.subrange(32, 33)) {
                Some(is_initialized) => Some(
                    AccountView {
                        mint: buf.subrange(0, 32),
                        is_initialized,
                        comm: buf.subrange(33, 65),
                    },
                ),
                None => None,
            }
        }
    }
}

impl View for Account {
    type V = AccountView;

    open spec fn view(&self) -> AccountView {
        AccountView { mint: self.mint@, is_initialized: self.is_initialized, comm: self.comm@ }
    }
}

impl Default for Account {
    /// The blank record: zero key, zero commitment, not initialized.
    fn default() -> (account: Account)
        ensures
            account@ == AccountView::blank(),
    {
        let account = Account {
            mint: BorshPubkey(Pubkey([0u8; 32])),
            is_initialized: false,
            comm: PedersenComm([0u8; 32]),
        };
        assert(account.mint@ =~= Seq::new(32, |i: int| 0u8));
        assert(account.comm@ =~= Seq::new(32, |i: int| 0u8));
        account
    }
}

impl Account {
    /// Length of a stored account.
    pub const LEN: usize = 65;

    /// Whether the record is live rather than blank storage.
    pub fn is_initialized(&self) -> (flag: bool)
        ensures
            flag == self.is_initialized,
    {
        self.is_initialized
    }

    /// Reads an account from its stored form.
    ///
    /// Fails on a buffer that is not exactly 65 bytes long or whose flag byte
    /// is neither 0 nor 1.
    pub fn unpack_from_slice(src: &[u8]) -> (account: Result<Account, CTokenError>)
        ensures
            match account {
                Ok(a) => AccountView::from_bytes(src@) == Some(a@),
                Err(e) => AccountView::from_bytes(src@) is None && e
                    == CTokenError::InvalidAccountData,
            },
    {
        if src.len() != Account::LEN {
            return Err(CTokenError::InvalidAccountData);
        }
        let key = BorshPubkey::deserialize(slice_subrange(src, 0, 32));
        let flag = decode_bool(slice_subrange(src, 32, 33));
        let comm = PedersenComm::new(slice_subrange(src, 33, 65));
        match (key, flag) {
            (Ok(mint), Some(is_initialized)) => Ok(Account { mint, is_initialized, comm }),
            _ => Err(CTokenError::InvalidAccountData),
        }
    }

    /// Writes the stored form of the account over `dst`, which has to be
    /// exactly 65 bytes long. [`Account::unpack_from_slice`] reads the same
    /// account back from it.
    pub fn pack_into_slice(&self, dst: &mut [u8])
        requires
            old(dst)@.len() == Account::LEN,
        ensures
            final(dst)@ == self@.to_bytes(),
            final(dst)@.len() == Account::LEN,
            AccountView::from_bytes(final(dst)@) == Some(self@),
    {
        write_at(dst, 0, self.mint.0.as_bytes());
        if let Some(flag) = encode_bool(self.is_initialized) {
            write_at(dst, 32, flag.as_slice());
        }
        write_at(dst, 33, self.comm.0.as_slice());
        assert(dst@ =~= self@.to_bytes());
        proof {
            lemma_account_round_trip(self@);
        }
    }

    /// The account after the first `Mint` that targets it: live, tied to the
    /// mint, with the commitment the verifier attested. There is none if the
    /// account is already live.
    pub open spec fn spec_initialize(self, mint: Pubkey, comm: PedersenComm) -> Option<Account> {
        if self.is_initialized {
            None
        } else {
            Some(Account { mint: BorshPubkey(mint), is_initialized: true, comm })
        }
    }

    /// The account after an operation that changes its balance: the
    /// commitment is replaced by the one the verifier attested. There is none
    /// if the account is blank.
    pub open spec fn spec_set_commitment(self, comm: PedersenComm) -> Option<Account> {
        if self.is_initialized {
            Some(Account { comm, ..self })
        } else {
            None
        }
    }

    /// Applies the first `Mint` that targets the account: a blank account
    /// becomes live, tied to `mint`, with `comm` as its commitment. A live
    /// account is left alone and `None` is returned.
    pub fn initialize(&self, mint: Pubkey, comm: PedersenComm) -> (next: Option<Account>)
        ensures
            next == self.spec_initialize(mint, comm),
    {
        if self.is_initialized {
            None
        } else {
            Some(Account { mint: BorshPubkey(mint), is_initialized: true, comm })
        }
    }

    /// Replaces the commitment of a live account with the one the verifier
    /// attested. Returns `None` for a blank account.
    pub fn set_commitment(&self, comm: PedersenComm) -> (next: Option<Account>)
        ensures
            next == self.spec_set_commitment(comm),
    {
        if self.is_initialized {
            Some(Account { mint: self.mint, is_initialized: self.is_initialized, comm })
        } else {
            None
        }
    }

    /// Applies a `CloseAccount`: a live account becomes the blank record
    /// again, its commitment zeroed. Returns `None` for a blank account.
    pub fn close(&self) -> (next: Option<Account>)
        ensures
            next is Some <==> self.is_initialized,
            next matches Some(a) ==> a@ == AccountView::blank(),
    {
        if self.is_initialized {
            Some(Account::default())
        } else {
            None
        }
    }
}

/// A stored mint is 41 bytes long, whatever its fields hold, and reading it
/// back gives the same mint.
pub proof fn lemma_mint_round_trip(mint: MintView)
    requires
        mint.wf(),
    ensures
        mint.to_bytes().len() == Mint::LEN,
        MintView::from_bytes(mint.to_bytes()) == Some(mint),
{
    let bytes = mint.to_bytes();
    lemma_borsh_u64_round_trip(mint.supply);
    lemma_borsh_bool_round_trip(mint.is_initialized);
    assert(bytes.subrange(0, 32) =~= mint.mint_authority);
    assert(bytes.subrange(32, 40) =~= borsh_u64(mint.supply));
    assert(bytes.subrange(40, 41) =~= borsh_bool(mint.is_initialized));
}

/// A buffer stores at most one mint, and only in one way: whatever is read
/// from it is well formed and is written back as the same bytes.
pub proof fn lemma_mint_stored_form_unique(buf: Seq<u8>)
    requires
        MintView::from_bytes(buf) is Some,
    ensures
        MintView::from_bytes(buf)->0.wf(),
        MintView::from_bytes(buf)->0.to_bytes() == buf,
{
    let mint = MintView::from_bytes(buf)->0;
    lemma_borsh_u64_canonical(buf.subrange(32, 40));
    assert(borsh_bool(mint.is_initialized) =~= buf.subrange(40, 41));
    assert(mint.to_bytes() =~= buf);
}

/// Zeroed storage of the length of a mint reads as the blank mint, which is
/// not initialized.
pub proof fn lemma_zeroed_mint_is_blank()
    ensures
        MintView::from_bytes(Seq::new(41, |i: int| 0u8)) == Some(MintView::blank()),
        MintView::blank().to_bytes() == Seq::new(41, |i: int| 0u8),
        !MintView::blank().is_initialized,
{
    let zeros = Seq::new(41, |i: int| 0u8);
    let blank = MintView::blank();
    spec_u64_to_le_bytes_to_open(0);
    assert(0u64 & 0xff == 0) by (bit_vector);
    assert(0u64 >> 8 == 0 && 0u64 >> 16 == 0 && 0u64 >> 24 == 0 && 0u64 >> 32 == 0 && 0u64 >> 40
        == 0 && 0u64 >> 48 == 0 && 0u64 >> 56 == 0) by (bit_vector);
    assert(borsh_u64(0) =~= Seq::new(8, |i: int| 0u8));
    assert(blank.to_bytes() =~= zeros);
    lemma_mint_round_trip(blank);
}

/// A stored account is 65 bytes long, whatever its fields hold, and reading
/// it back gives the same account.
pub proof fn lemma_account_round_trip(account: AccountView)
    requires
        account.wf(),
    ensures
        account.to_bytes().len() == Account::LEN,
        AccountView::from_bytes(account.to_bytes()) == Some(account),
{
    let bytes = account.to_bytes();
    lemma_borsh_bool_round_trip(account.is_initialized);
    assert(bytes.subrange(0, 32) =~= account.mint);
    assert(bytes.subrange(32, 33) =~= borsh_bool(account.is_initialized));
    assert(bytes.subrange(33, 65) =~= account.comm);
}

/// A buffer stores at most one account, and only in one way: whatever is
/// read from it is well formed and is written back as the same bytes.
pub proof fn lemma_account_stored_form_unique(buf: Seq<u8>)
    requires
        AccountView::from_bytes(buf) is Some,
    ensures
        AccountView::from_bytes(buf)->0.wf(),
        AccountView::from_bytes(buf)->0.to_bytes() == buf,
{
    let account = AccountView::from_bytes(buf)->0;
    assert(borsh_bool(account.is_initialized) =~= buf.subrange(32, 33));
    assert(account.to_bytes() =~= buf);
}

/// Zeroed storage of the length of an account reads as the blank account,
/// which is not initialized.
pub proof fn lemma_zeroed_account_is_blank()
    ensures
        AccountView::from_bytes(Seq::new(65, |i: int| 0u8)) == Some(AccountView::blank()),
        AccountView::blank().to_bytes() == Seq::new(65, |i: int| 0u8),
        !AccountView::blank().is_initialized,
{
    let zeros = Seq::new(65, |i: int| 0u8);
    let blank = AccountView::blank();
    assert(blank.to_bytes() =~= zeros);
    lemma_account_round_trip(blank);
}

/// A mint is live after the `InitializeMint` that set it up, and that
/// operation applies to a blank mint only: a mint is initialized once.
pub proof fn lemma_mint_initialized_once(mint: Mint, mint_authority: Pubkey, again: Pubkey)
    ensures
        mint.spec_initialize(mint_authority) is Some <==> !mint.is_initialized,
        mint.spec_initialize(mint_authority) matches Some(live) ==> {
            &&& live.is_initialized
            &&& live.supply == 0
            &&& live.spec_initialize(again) is None
        },
{
}

/// An account is live after the first `Mint` that targets it, and no later
/// operation initializes it a second time.
pub proof fn lemma_account_initialized_once(
    account: Account,
    mint: Pubkey,
    comm: PedersenComm,
    again: Pubkey,
    other: PedersenComm,
)
    ensures
        account.spec_initialize(mint, comm) is Some <==> !account.is_initialized,
        account.spec_initialize(mint, comm) matches Some(live) ==> {
            &&& live.is_initialized
            &&& live.spec_initialize(again, other) is None
            &&& live.spec_set_commitment(other) matches Some(moved) && moved.is_initialized
        },
{
}

/// The sum of a sequence of amounts.
pub open spec fn total(amounts: Seq<u64>) -> int {
    amounts.fold_left(0int, |sum: int, amount: u64| sum + amount)
}

/// After a run of verified `Mint` operations the supply is what it was plus
/// the sum of the amounts, and nothing else in the mint has changed. The run
/// goes through exactly when the mint is live and that sum still fits in 64
/// bits (or when the run is empty).
pub proof fn lemma_supply_grows_by_total(mint: Mint, amounts: Seq<u64>)
    ensures
        mint.spec_increase_supply_all(amounts) is Some <==> amounts.len() == 0 || (
        mint.is_initialized && mint.supply + total(amounts) <= u64::MAX),
        mint.spec_increase_supply_all(amounts) matches Some(m) ==> {
            &&& m.supply == mint.supply + total(amounts)
            &&& m.supply >= mint.supply
            &&& m.mint_authority == mint.mint_authority
            &&& m.is_initialized == mint.is_initialized
        },
        total(amounts) >= 0,
    decreases amounts.len(),
{
    if amounts.len() > 0 {
        lemma_supply_grows_by_total(mint, amounts.drop_last());
    }
}

/// The order in which verified `Mint` operations reach a mint does not
/// matter: two runs of the same amounts leave the same mint, or are both
/// refused.
pub proof fn lemma_supply_ignores_order(mint: Mint, first: Seq<u64>, second: Seq<u64>)
    requires
        first.to_multiset() == second.to_multiset(),
    ensures
        mint.spec_increase_supply_all(first) == mint.spec_increase_supply_all(second),
        total(first) == total(second),
{
    let step = |mint: Option<Mint>, amount: u64|
        match mint {
            Some(m) => m.spec_increase_supply(amount),
            None => None,
        };
    assert(commutative_foldl(step)) by {
        assert forall|x: u64, y: u64, v: Option<Mint>| #[trigger]
            step(step(v, x), y) == step(step(v, y), x) by {}
    }
    lemma_fold_left_permutation(first, second, step, Some(mint));
    let plus = |sum: int, amount: u64| sum + amount;
    lemma_fold_left_permutation(first, second, plus, 0int);
}

/// Copies `src` over the bytes of `dst` that start at `at`.
fn write_at(dst: &mut [u8], at: usize, src: &[u8])
    requires
        at + src@.len() <= old(dst)@.len(),
    ensures
        final(dst)@ == old(dst)@.subrange(0, at as int) + src@ + old(dst)@.subrange(
            at + src@.len(),
            old(dst)@.len() as int,
        ),
{
    let ghost before = dst@;
    let n: usize = src.len();
    let len: usize = dst.len();
    let mut i: usize = 0;
    while i < n
        invariant
            i <= n,
            n == src@.len(),
            at + n <= dst@.len(),
            dst@.len() == before.len(),
            dst@.len() == len,
            forall|j: int| 0 <= j < at ==> dst@[j] == before[j],
            forall|j: int| at <= j < at + i ==> dst@[j] == src@[j - at],
            forall|j: int| at + i <= j < dst@.len() ==> dst@[j] == before[j],
        decreases n - i,
    {
        dst[at + i] = src[i];
        i += 1;
    }
    assert(dst@ =~= before.subrange(0, at as int) + src@ + before.subrange(
        at + src@.len(),
        before.len() as int,
    ));
}

} // verus!
