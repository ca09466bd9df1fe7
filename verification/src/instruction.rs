//! The operations of the ledger and their wire format.
//!
//! An instruction is one tag byte followed by a payload that depends on the
//! tag:
//!
//! | tag | operation        | payload                                |
//! |-----|------------------|----------------------------------------|
//! | 0   | `InitializeMint` | the 32 bytes of the mint authority     |
//! | 1   | `Mint`           | the Borsh form of the mint payload     |
//! | 2   | `Transfer`       | the Borsh form of the transfer payload |
//! | 3   | `CloseAccount`   | none                                   |
//!
//! Decoding is permissive in one respect, by choice: bytes that follow the
//! key of an `InitializeMint`, or the tag of a `CloseAccount`, are ignored. A
//! proof payload, in contrast, has to fill the rest of the buffer exactly.

use crate::error::CTokenError;
use crate::payload::{MintData, TransferData};
use crate::pubkey::Pubkey;
use crate::sysvar::{rent_id, rent_id_bytes};
use crate::wire::{
    borsh_bytes, borsh_bytes_decoded, decode_bytes, encode_bytes, fits_length_prefix,
    lemma_borsh_bytes_canonical, lemma_borsh_bytes_round_trip,
};
use vstd::prelude::*;
use vstd::slice::slice_subrange;

verus! {

/// Tag of [`CTokenInstruction::InitializeMint`].
pub const TAG_INITIALIZE_MINT: u8 = 0;

/// Tag of [`CTokenInstruction::Mint`].
pub const TAG_MINT: u8 = 1;

/// Tag of [`CTokenInstruction::Transfer`].
pub const TAG_TRANSFER: u8 = 2;

/// Tag of [`CTokenInstruction::CloseAccount`].
pub const TAG_CLOSE_ACCOUNT: u8 = 3;

/// A request to change the ledger.
#[derive(Clone, Debug, PartialEq, Eq)]
pub enum CTokenInstruction {
    /// Initializes a new mint.
    ///
    /// Accounts expected by this instruction:
    ///
    ///   0. `[writable]` The mint to initialize.
    ///   1. `[]` Rent sysvar
    InitializeMint {
        /// The key that will be allowed to mint.
        mint_authority: Pubkey,
    },
    /// Mints new tokens to an account, initializing the account if it is
    /// blank.
    ///
    /// Accounts expected by this instruction:
    ///
    ///   0. `[writable]` The mint.
    ///   1. `[writable]` The account to mint tokens to.
    ///   2. `[signer]` The mint's minting authority.
    Mint {
        /// Data for the new tokens to mint.
        mint_data: MintData,
    },
    /// Transfers tokens between two accounts. No account has to sign: the
    /// proof in the payload is what authorizes the transfer.
    ///
    /// Accounts expected by this instruction:
    ///
    ///   0. `[writable]` The source account.
    ///   1. `[writable]` The destination account.
    Transfer {
        /// Data for the transfer.
        transfer_data: TransferData,
    },
    /// Closes an account, moving its value out of the confidential ledger.
    ///
    /// Accounts expected by this instruction:
    ///
    ///   0. `[writable]` The source account.
    ///   1. `[writable]` The destination account.
    CloseAccount,
}

/// What a [`CTokenInstruction`] holds, with keys and payloads as byte
/// sequences.
pub enum CTokenInstructionView {
    InitializeMint { mint_authority: Seq<u8> },
    Mint { mint_data: Seq<u8> },
    Transfer { transfer_data: Seq<u8> },
    CloseAccount,
}

impl CTokenInstructionView {
    /// The key has the length of a key and the payload is short enough to be
    /// sent. Every view of a `CTokenInstruction` is well formed.
    pub open spec fn wf(self) -> bool {
        match self {
            CTokenInstructionView::InitializeMint { mint_authority } => mint_authority.len() == 32,
            CTokenInstructionView::Mint { mint_data } => fits_length_prefix(mint_data),
            CTokenInstructionView::Transfer { transfer_data } => fits_length_prefix(transfer_data),
            CTokenInstructionView::CloseAccount => true,
        }
    }

    /// The wire form of the instruction: its tag, then its payload.
    pub open spec fn to_bytes(self) -> Seq<u8> {
        match self {
            CTokenInstructionView::InitializeMint { mint_authority } => seq![TAG_INITIALIZE_MINT]
                + mint_authority,
            CTokenInstructionView::Mint { mint_data } => seq![TAG_MINT] + borsh_bytes(mint_data),
            CTokenInstructionView::Transfer { transfer_data } => seq![TAG_TRANSFER] + borsh_bytes(
                transfer_data,
            ),
            CTokenInstructionView::CloseAccount => seq![TAG_CLOSE_ACCOUNT],
        }
    }

    /// The instruction that a buffer holds, or the reason it holds none.
    pub open spec fn from_bytes(input: Seq<u8>) -> Result<CTokenInstructionView, CTokenError> {
        if input.len() == 0 {
            Err(CTokenError::InvalidInstruction)
        } else {
            let tag = input[0];
            let rest = input.subrange(1, input.len() as int);
            if tag == TAG_INITIALIZE_MINT {
                if rest.len() >= 32 {
                    Ok(CTokenInstructionView::InitializeMint { mint_authority: rest.subrange(0, 32) })
                } else {
                    Err(CTokenError::InvalidInstruction)
                }
            } else if tag == TAG_MINT {
                match borsh_bytes_decoded(rest) {
                    Some(mint_data) => Ok(CTokenInstructionView::Mint { mint_data }),
                    None => Err(CTokenError::InvalidPayload),
                }
            } else if tag == TAG_TRANSFER {
                match borsh_bytes_decoded(rest) {
                    Some(transfer_data) => Ok(CTokenInstructionView::Transfer { transfer_data }),
                    None => Err(CTokenError::InvalidPayload),
                }
            } else if tag == TAG_CLOSE_ACCOUNT {
                Ok(CTokenInstructionView::CloseAccount)
            } else {
                Err(CTokenError::InvalidInstruction)
            }
        }
    }
}

impl View for CTokenInstruction {
    type V = CTokenInstructionView;

    open spec fn view(&self) -> CTokenInstructionView {
        match self {
            CTokenInstruction::InitializeMint { mint_authority } => {
                CTokenInstructionView::InitializeMint { mint_authority: mint_authority@ }
            },
            CTokenInstruction::Mint { mint_data } => {
                CTokenInstructionView::Mint { mint_data: mint_data@ }
            },
            CTokenInstruction::Transfer { transfer_data } => {
                CTokenInstructionView::Transfer { transfer_data: transfer_data@ }
            },
            CTokenInstruction::CloseAccount => CTokenInstructionView::CloseAccount,
        }
    }
}

impl CTokenInstruction {
    /// Decodes an instruction from its wire form.
    ///
    /// Parsing only: no proof is checked and nothing is changed.
    pub fn unpack(input: &[u8]) -> (instruction: Result<CTokenInstruction, CTokenError>)
        ensures
            match CTokenInstructionView::from_bytes(input@) {
                Ok(decoded) => instruction matches Ok(i) && i@ == decoded,
                Err(error) => instruction matches Err(e) && e == error,
            },
    {
        if input.len() == 0 {
            return Err(CTokenError::InvalidInstruction);
        }
        let tag: u8 = input[0];
        let rest = slice_subrange(input, 1, input.len());
        match tag {
            TAG_INITIALIZE_MINT => {
                match Self::unpack_pubkey(rest) {
                    Ok((mint_authority, _)) => Ok(Self::InitializeMint { mint_authority }),
                    Err(e) => Err(e),
                }
            },
            TAG_MINT => {
                match decode_bytes(rest) {
                    Some(bytes) => match MintData::new(bytes) {
                        Some(mint_data) => Ok(Self::Mint { mint_data }),
                        None => Err(CTokenError::InvalidPayload),
                    },
                    None => Err(CTokenError::InvalidPayload),
                }
            },
            TAG_TRANSFER => {
                match decode_bytes(rest) {
                    Some(bytes) => match TransferData::new(bytes) {
                        Some(transfer_data) => Ok(Self::Transfer { transfer_data }),
                        None => Err(CTokenError::InvalidPayload),
                    },
                    None => Err(CTokenError::InvalidPayload),
                }
            },
            TAG_CLOSE_ACCOUNT => Ok(Self::CloseAccount),
            _ => Err(CTokenError::InvalidInstruction),
        }
    }

    /// Encodes the instruction in its wire form, from which
    /// [`CTokenInstruction::unpack`] reads the same instruction back.
    pub fn pack(&self) -> (buf: Vec<u8>)
        ensures
            buf@ == self@.to_bytes(),
            self@.wf(),
            CTokenInstructionView::from_bytes(buf@) matches Ok(decoded) && decoded == self@,
    {
        let mut buf: Vec<u8> = Vec::new();
        match self {
            Self::InitializeMint { mint_authority } => {
                buf.push(TAG_INITIALIZE_MINT);
                buf.extend_from_slice(mint_authority.as_bytes());
            },
            Self::Mint { mint_data } => {
                buf.push(TAG_MINT);
                if let Some(payload) = encode_bytes(mint_data.as_bytes()) {
                    buf.extend_from_slice(payload.as_slice());
                }
            },
            Self::Transfer { transfer_data } => {
                buf.push(TAG_TRANSFER);
                if let Some(payload) = encode_bytes(transfer_data.as_bytes()) {
                    buf.extend_from_slice(payload.as_slice());
                }
            },
            Self::CloseAccount => {
                buf.push(TAG_CLOSE_ACCOUNT);
            },
        }
        assert(buf@ =~= self@.to_bytes());
        proof {
            lemma_unpack_inverts_pack(self@);
        }
        buf
    }

    /// Splits a key off the front of `input`: its first 32 bytes, and what
    /// follows them.
    pub fn unpack_pubkey(input: &[u8]) -> (split: Result<(Pubkey, &[u8]), CTokenError>)
        ensures
            match split {
                Ok((key, rest)) => {
                    &&& input@.len() >= 32
                    &&& key@ == input@.subrange(0, 32)
                    &&& rest@ == input@.subrange(32, input@.len() as int)
                },
                Err(e) => input@.len() < 32 && e == CTokenError::InvalidInstruction,
            },
    {
        if input.len() >= 32 {
            let key = Pubkey::new(slice_subrange(input, 0, 32));
            let rest = slice_subrange(input, 32, input.len());
            Ok((key, rest))
        } else {
            Err(CTokenError::InvalidInstruction)
        }
    }
}

/// A reference to an account that an instruction touches.
#[derive(Clone, Copy, Debug, PartialEq, Eq)]
pub struct AccountMeta {
    /// The account's address.
    pub pubkey: Pubkey,
    /// Whether the transaction has to be signed with the account's key.
    pub is_signer: bool,
    /// Whether the instruction may change the account.
    pub is_writable: bool,
}

impl AccountMeta {
    /// A reference to an account that the instruction may change.
    pub fn new(pubkey: Pubkey, is_signer: bool) -> (meta: AccountMeta)
        ensures
            meta == (AccountMeta { pubkey, is_signer, is_writable: true }),
    {
        AccountMeta { pubkey, is_signer, is_writable: true }
    }

    /// A reference to an account that the instruction only reads.
    pub fn new_readonly(pubkey: Pubkey, is_signer: bool) -> (meta: AccountMeta)
        ensures
            meta == (AccountMeta { pubkey, is_signer, is_writable: false }),
    {
        AccountMeta { pubkey, is_signer, is_writable: false }
    }
}

/// An instruction as the ledger takes it: the program to run, the accounts
/// it touches, in the order the program expects them, and the encoded
/// operation.
#[derive(Clone, Debug, PartialEq, Eq)]
pub struct Instruction {
    /// Address of the program that executes the instruction.
    pub program_id: Pubkey,
    /// The accounts the program is handed, by position.
    pub accounts: Vec<AccountMeta>,
    /// The wire form of the operation.
    pub data: Vec<u8>,
}

/// Creates an `InitializeMint` instruction.
///
/// Accounts, in order: the mint (writable), the rent sysvar (read-only).
pub fn initialize_mint(
    c_token_program_id: &Pubkey,
    mint_pubkey: &Pubkey,
    mint_authority_pubkey: &Pubkey,
) -> (instruction: Result<Instruction, CTokenError>)
    ensures
        instruction is Ok,
        instruction matches Ok(ix) ==> {
            &&& ix.program_id == *c_token_program_id
            &&& ix.accounts@.len() == 2
            &&& ix.accounts@[0] == (AccountMeta {
                pubkey: *mint_pubkey,
                is_signer: false,
                is_writable: true,
            })
            &&& ix.accounts@[1].pubkey@ == rent_id_bytes()
            &&& !ix.accounts@[1].is_signer
            &&& !ix.accounts@[1].is_writable
            &&& ix.data@ == (CTokenInstructionView::InitializeMint {
                mint_authority: mint_authority_pubkey@,
            }).to_bytes()
        },
{
    let data = CTokenInstruction::InitializeMint { mint_authority: *mint_authority_pubkey }.pack();
    let accounts = vec![
        AccountMeta::new(*mint_pubkey, false),
        AccountMeta::new_readonly(rent_id(), false),
    ];
    Ok(Instruction { program_id: *c_token_program_id, accounts, data })
}

/// Creates a `Mint` instruction.
///
/// Accounts, in order: the mint (writable), the account to mint to
/// (writable), the minting authority (read-only, signer).
pub fn mint(
    c_token_program_id: &Pubkey,
    mint_pubkey: &Pubkey,
    account_pubkey: &Pubkey,
    signer_pubkey: &Pubkey,
    mint_data: MintData,
) -> (instruction: Result<Instruction, CTokenError>)
    ensures
        instruction is Ok,
        instruction matches Ok(ix) ==> {
            &&& ix.program_id == *c_token_program_id
            &&& ix.accounts@ == seq![
                (AccountMeta { pubkey: *mint_pubkey, is_signer: false, is_writable: true }),
                (AccountMeta { pubkey: *account_pubkey, is_signer: false, is_writable: true }),
                (AccountMeta { pubkey: *signer_pubkey, is_signer: true, is_writable: false }),
            ]
            &&& ix.data@ == (CTokenInstructionView::Mint { mint_data: mint_data@ }).to_bytes()
        },
{
    let data = CTokenInstruction::Mint { mint_data }.pack();
    let accounts = vec![
        AccountMeta::new(*mint_pubkey, false),
        AccountMeta::new(*account_pubkey, false),
        AccountMeta::new_readonly(*signer_pubkey, true),
    ];
    Ok(Instruction { program_id: *c_token_program_id, accounts, data })
}

/// Creates a `Transfer` instruction.
///
/// Accounts, in order: the source account (writable), the destination
/// account (writable). Neither signs.
pub fn transfer(
    c_token_program_id: &Pubkey,
    source_pubkey: &Pubkey,
    destination_pubkey: &Pubkey,
    transfer_data: TransferData,
) -> (instruction: Result<Instruction, CTokenError>)
    ensures
        instruction is Ok,
        instruction matches Ok(ix) ==> {
            &&& ix.program_id == *c_token_program_id
            &&& ix.accounts@ == seq![
                (AccountMeta { pubkey: *source_pubkey, is_signer: false, is_writable: true }),
                (AccountMeta { pubkey: *destination_pubkey, is_signer: false, is_writable: true }),
            ]
            &&& ix.data@ == (CTokenInstructionView::Transfer {
                transfer_data: transfer_data@,
            }).to_bytes()
        },
{
    let data = CTokenInstruction::Transfer { transfer_data }.pack();
    let accounts = vec![
        AccountMeta::new(*source_pubkey, false),
        AccountMeta::new(*destination_pubkey, false),
    ];
    Ok(Instruction { program_id: *c_token_program_id, accounts, data })
}

/// Decoding the wire form of an instruction gives the instruction back.
pub proof fn lemma_unpack_inverts_pack(instruction: CTokenInstructionView)
    requires
        instruction.wf(),
    ensures
        CTokenInstructionView::from_bytes(instruction.to_bytes()) matches Ok(decoded) && decoded
            == instruction,
{
    let bytes = instruction.to_bytes();
    let rest = bytes.subrange(1, bytes.len() as int);
    match instruction {
        CTokenInstructionView::InitializeMint { mint_authority } => {
            assert(rest =~= mint_authority);
            assert(rest.subrange(0, 32) =~= mint_authority);
        },
        CTokenInstructionView::Mint { mint_data } => {
            assert(rest =~= borsh_bytes(mint_data));
            lemma_borsh_bytes_round_trip(mint_data);
        },
        CTokenInstructionView::Transfer { transfer_data } => {
            assert(rest =~= borsh_bytes(transfer_data));
            lemma_borsh_bytes_round_trip(transfer_data);
        },
        CTokenInstructionView::CloseAccount => {},
    }
}

/// Whatever decodes is well formed, and its wire form is a prefix of the
/// buffer it was decoded from: the whole buffer for the operations that carry
/// a proof payload.
pub proof fn lemma_unpack_reads_wire_form(input: Seq<u8>)
    requires
        CTokenInstructionView::from_bytes(input) is Ok,
    ensures
        ({
            let instruction = CTokenInstructionView::from_bytes(input)->Ok_0;
            let bytes = instruction.to_bytes();
            &&& instruction.wf()
            &&& bytes.len() <= input.len()
            &&& bytes == input.subrange(0, bytes.len() as int)
            &&& (instruction is Mint || instruction is Transfer) ==> bytes == input
        }),
{
    let instruction = CTokenInstructionView::from_bytes(input)->Ok_0;
    let bytes = instruction.to_bytes();
    let rest = input.subrange(1, input.len() as int);
    match instruction {
        CTokenInstructionView::InitializeMint { mint_authority } => {
            assert(bytes =~= input.subrange(0, bytes.len() as int));
        },
        CTokenInstructionView::Mint { mint_data } => {
            lemma_borsh_bytes_canonical(rest);
            assert(bytes =~= input);
            assert(input.subrange(0, input.len() as int) =~= input);
        },
        CTokenInstructionView::Transfer { transfer_data } => {
            lemma_borsh_bytes_canonical(rest);
            assert(bytes =~= input);
            assert(input.subrange(0, input.len() as int) =~= input);
        },
        CTokenInstructionView::CloseAccount => {
            assert(bytes =~= input.subrange(0, bytes.len() as int));
        },
    }
}

/// A buffer too short to hold what its tag announces is no instruction: the
/// empty buffer, and an `InitializeMint` tag with fewer than 32 bytes after
/// it.
pub proof fn lemma_short_input_rejected(input: Seq<u8>)
    requires
        input.len() == 0 || (input[0] == TAG_INITIALIZE_MINT && input.len() < 33),
    ensures
        CTokenInstructionView::from_bytes(input) matches Err(error) && error
            == CTokenError::InvalidInstruction,
{
}

/// A buffer whose tag is none of the four assigned ones is no instruction.
pub proof fn lemma_unknown_tag_rejected(input: Seq<u8>)
    requires
        input.len() > 0,
        input[0] != TAG_INITIALIZE_MINT,
        input[0] != TAG_MINT,
        input[0] != TAG_TRANSFER,
        input[0] != TAG_CLOSE_ACCOUNT,
    ensures
        CTokenInstructionView::from_bytes(input) matches Err(error) && error
            == CTokenError::InvalidInstruction,
{
}

} // verus!
