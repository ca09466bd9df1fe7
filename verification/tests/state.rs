use ctoken::error::CTokenError;
use ctoken::payload::PedersenComm;
use ctoken::pubkey::Pubkey;
use ctoken::state::{Account, BorshPubkey, Mint};

fn pack_mint(mint: &Mint) -> Vec<u8> {
    let mut buf = vec![0xeeu8; Mint::LEN];
    mint.pack_into_slice(&mut buf);
    buf
}

fn pack_account(account: &Account) -> Vec<u8> {
    let mut buf = vec![0xeeu8; Account::LEN];
    account.pack_into_slice(&mut buf);
    buf
}

fn counting(first: u8) -> [u8; 32] {
    let mut bytes = [0u8; 32];
    for (i, b) in bytes.iter_mut().enumerate() {
        *b = first.wrapping_add(i as u8);
    }
    bytes
}

#[test]
fn record_lengths() {
    assert_eq!(Mint::LEN, 41);
    assert_eq!(Account::LEN, 65);
}

#[test]
fn mint_layout_is_authority_supply_flag() {
    let mint = Mint {
        mint_authority: BorshPubkey(Pubkey::new_from_array(counting(1))),
        supply: 0x0102_0304_0506_0708,
        is_initialized: true,
    };
    let buf = pack_mint(&mint);
    assert_eq!(buf.len(), 41);
    assert_eq!(&buf[0..32], &counting(1));
    assert_eq!(&buf[32..40], &[8, 7, 6, 5, 4, 3, 2, 1]);
    assert_eq!(buf[40], 1);
}

#[test]
fn account_layout_is_mint_flag_commitment() {
    let account = Account {
        mint: BorshPubkey(Pubkey::new_from_array(counting(10))),
        is_initialized: true,
        comm: PedersenComm::new_from_array(counting(100)),
    };
    let buf = pack_account(&account);
    assert_eq!(buf.len(), 65);
    assert_eq!(&buf[0..32], &counting(10));
    assert_eq!(buf[32], 1);
    assert_eq!(&buf[33..65], &counting(100));
}

#[test]
fn mint_round_trip_at_the_boundaries() {
    for supply in [0u64, 1, 255, 256, u64::MAX - 1, u64::MAX] {
        for key in [[0u8; 32], [0xffu8; 32], counting(3)] {
            for is_initialized in [false, true] {
                let mint = Mint {
                    mint_authority: BorshPubkey(Pubkey::new_from_array(key)),
                    supply,
                    is_initialized,
                };
                let buf = pack_mint(&mint);
                assert_eq!(buf.len(), 41);
                assert_eq!(Mint::unpack_from_slice(&buf), Ok(mint));
            }
        }
    }
}

#[test]
fn account_round_trip_at_the_boundaries() {
    for key in [[0u8; 32], [0xffu8; 32], counting(3)] {
        for comm in [[0u8; 32], [0xffu8; 32], counting(77)] {
            for is_initialized in [false, true] {
                let account = Account {
                    mint: BorshPubkey(Pubkey::new_from_array(key)),
                    is_initialized,
                    comm: PedersenComm::new_from_array(comm),
                };
                let buf = pack_account(&account);
                assert_eq!(buf.len(), 65);
                assert_eq!(Account::unpack_from_slice(&buf), Ok(account));
            }
        }
    }
}

#[test]
fn max_supply_is_eight_ff_bytes() {
    let mint = Mint {
        mint_authority: BorshPubkey(Pubkey::new_from_array([0u8; 32])),
        supply: u64::MAX,
        is_initialized: false,
    };
    let buf = pack_mint(&mint);
    assert_eq!(&buf[32..40], &[0xff; 8]);
    assert_eq!(buf[40], 0);
}

#[test]
fn zeroed_account_is_blank() {
    let account = Account::unpack_from_slice(&[0u8; 65]).unwrap();
    assert!(!account.is_initialized);
    assert!(!account.is_initialized());
    assert_eq!(account.mint.0, Pubkey::new_from_array([0u8; 32]));
    assert_eq!(account.comm, PedersenComm::new_from_array([0u8; 32]));
    assert_eq!(account, Account::default());
}

#[test]
fn zeroed_mint_is_blank() {
    let mint = Mint::unpack_from_slice(&[0u8; 41]).unwrap();
    assert!(!mint.is_initialized());
    assert_eq!(mint.supply, 0);
    assert_eq!(mint.mint_authority.0, Pubkey::new_from_array([0u8; 32]));
    assert_eq!(mint, Mint::default());
    assert_eq!(pack_mint(&Mint::default()), vec![0u8; 41]);
    assert_eq!(pack_account(&Account::default()), vec![0u8; 65]);
}

#[test]
fn unpack_reads_each_field_from_its_place() {
    let mut buf = vec![0u8; 41];
    buf[..32].copy_from_slice(&counting(9));
    buf[32] = 0x10;
    buf[33] = 0x27;
    buf[40] = 1;
    let mint = Mint::unpack_from_slice(&buf).unwrap();
    assert_eq!(mint.mint_authority.0.to_bytes(), counting(9));
    assert_eq!(mint.supply, 10_000);
    assert!(mint.is_initialized());

    let mut buf = vec![0u8; 65];
    buf[..32].copy_from_slice(&counting(50));
    buf[32] = 1;
    buf[33..].copy_from_slice(&counting(150));
    let account = Account::unpack_from_slice(&buf).unwrap();
    assert_eq!(account.mint.0.to_bytes(), counting(50));
    assert!(account.is_initialized());
    assert_eq!(account.comm.to_bytes(), counting(150));
}

#[test]
fn wrong_length_is_invalid_account_data() {
    for len in [0usize, 1, 40, 42, 65, 100] {
        assert_eq!(
            Mint::unpack_from_slice(&vec![0u8; len]),
            Err(CTokenError::InvalidAccountData)
        );
    }
    for len in [0usize, 1, 41, 64, 66, 100] {
        assert_eq!(
            Account::unpack_from_slice(&vec![0u8; len]),
            Err(CTokenError::InvalidAccountData)
        );
    }
}

#[test]
fn bad_flag_byte_is_invalid_account_data() {
    for flag in [2u8, 3, 0x80, 0xff] {
        let mut buf = vec![0u8; 41];
        buf[40] = flag;
        assert_eq!(Mint::unpack_from_slice(&buf), Err(CTokenError::InvalidAccountData));
        let mut buf = vec![0u8; 65];
        buf[32] = flag;
        assert_eq!(Account::unpack_from_slice(&buf), Err(CTokenError::InvalidAccountData));
    }
}

#[test]
fn stored_mint_is_the_borsh_form_of_its_fields() {
    let key = counting(21);
    let mint = Mint {
        mint_authority: BorshPubkey(Pubkey::new_from_array(key)),
        supply: 123_456_789_012,
        is_initialized: true,
    };
    let expected = borsh::to_vec(&(key, 123_456_789_012u64, true)).unwrap();
    assert_eq!(pack_mint(&mint), expected);
}

#[test]
fn stored_account_is_the_borsh_form_of_its_fields() {
    let key = counting(21);
    let comm = counting(99);
    let account = Account {
        mint: BorshPubkey(Pubkey::new_from_array(key)),
        is_initialized: false,
        comm: PedersenComm::new_from_array(comm),
    };
    let expected = borsh::to_vec(&(key, false, comm)).unwrap();
    assert_eq!(pack_account(&account), expected);
}

#[test]
fn borsh_pubkey_serializes_its_32_bytes() {
    let key = BorshPubkey(Pubkey::new_from_array(counting(5)));
    let mut out = vec![0xabu8];
    key.serialize(&mut out);
    assert_eq!(out.len(), 33);
    assert_eq!(out[0], 0xab);
    assert_eq!(&out[1..], &counting(5));
    assert_eq!(BorshPubkey::deserialize(&out[1..]), Ok(key));
    assert_eq!(*key.deref(), Pubkey::new_from_array(counting(5)));
}

#[test]
fn borsh_pubkey_wants_exactly_32_bytes() {
    assert_eq!(BorshPubkey::deserialize(&[]), Err(CTokenError::PubkeySizeMismatch));
    assert_eq!(BorshPubkey::deserialize(&[0u8; 31]), Err(CTokenError::PubkeySizeMismatch));
    assert_eq!(BorshPubkey::deserialize(&[0u8; 33]), Err(CTokenError::PubkeySizeMismatch));
    assert_eq!(BorshPubkey::deserialize(&[0u8; 41]), Err(CTokenError::PubkeySizeMismatch));
}

#[test]
fn keys_and_commitments_from_slices() {
    let bytes = counting(60);
    assert_eq!(Pubkey::new(&bytes), Pubkey::new_from_array(bytes));
    assert_eq!(Pubkey::new(&bytes).as_bytes(), &bytes);
    assert_eq!(PedersenComm::new(&bytes), PedersenComm::new_from_array(bytes));
}

#[test]
fn mint_is_initialized_once() {
    let authority = Pubkey::new_from_array(counting(2));
    let blank = Mint::default();
    assert!(!blank.is_initialized());
    let live = blank.initialize(authority).unwrap();
    assert!(live.is_initialized());
    assert_eq!(live.supply, 0);
    assert_eq!(live.mint_authority.0, authority);
    assert_eq!(live.initialize(Pubkey::new_from_array(counting(3))), None);
}

#[test]
fn initialize_mint_clears_the_supply() {
    let stale = Mint {
        mint_authority: BorshPubkey(Pubkey::new_from_array(counting(8))),
        supply: 77,
        is_initialized: false,
    };
    let authority = Pubkey::new_from_array(counting(2));
    assert_eq!(
        stale.initialize(authority),
        Some(Mint { mint_authority: BorshPubkey(authority), supply: 0, is_initialized: true })
    );
}

#[test]
fn supply_grows_by_the_sum_of_the_amounts() {
    let authority = Pubkey::new_from_array(counting(2));
    let start = Mint { mint_authority: BorshPubkey(authority), supply: 100, is_initialized: true };
    let amounts = [5u64, 0, 1_000_000, 37];
    let mut mint = start;
    for a in amounts {
        mint = mint.increase_supply(a).unwrap();
    }
    assert_eq!(mint.supply, 1_000_142);
    assert_eq!(mint.mint_authority.0, authority);
    assert!(mint.is_initialized());

    let mut reordered = start;
    for a in [37u64, 1_000_000, 5, 0] {
        reordered = reordered.increase_supply(a).unwrap();
    }
    assert_eq!(reordered, mint);
}

#[test]
fn supply_does_not_overflow() {
    let authority = Pubkey::new_from_array(counting(2));
    let mint = Mint {
        mint_authority: BorshPubkey(authority),
        supply: u64::MAX - 1,
        is_initialized: true,
    };
    assert_eq!(mint.increase_supply(2), None);
    assert_eq!(mint.increase_supply(u64::MAX), None);
    assert_eq!(mint.increase_supply(1).unwrap().supply, u64::MAX);
    assert_eq!(mint.increase_supply(1).unwrap().increase_supply(1), None);
}

#[test]
fn blank_mint_takes_no_supply() {
    assert_eq!(Mint::default().increase_supply(0), None);
    assert_eq!(Mint::default().increase_supply(10), None);
}

#[test]
fn account_lifecycle() {
    let mint = Pubkey::new_from_array(counting(4));
    let first = PedersenComm::new_from_array(counting(30));
    let second = PedersenComm::new_from_array(counting(31));

    let blank = Account::default();
    assert!(!blank.is_initialized());
    assert_eq!(blank.set_commitment(first), None);
    assert_eq!(blank.close(), None);

    let live = blank.initialize(mint, first).unwrap();
    assert_eq!(live, Account { mint: BorshPubkey(mint), is_initialized: true, comm: first });
    assert!(live.is_initialized());
    assert_eq!(live.initialize(mint, second), None);

    let moved = live.set_commitment(second).unwrap();
    assert_eq!(moved, Account { mint: BorshPubkey(mint), is_initialized: true, comm: second });

    let closed = moved.close().unwrap();
    assert_eq!(closed, Account::default());
    assert!(!closed.is_initialized());
    assert_eq!(closed.comm, PedersenComm::new_from_array([0u8; 32]));
}
