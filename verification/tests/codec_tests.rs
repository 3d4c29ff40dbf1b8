//! Tests of the fixed-layout codec: round trips, rejection of malformed
//! tags and invalid discriminants, and exact byte layouts.

use token_core::account::{
    pack_token_account, unpack_token_account, AccountState, TokenAccount, TOKEN_ACCOUNT_LENGTH,
};
use token_core::codec::CodecError;
use token_core::instruction::{AuthorityType, TokenInstruction};
use token_core::key::Pubkey;
use token_core::mint::{pack_token_mint, unpack_token_mint, TokenMint, TOKEN_MINT_LENGTH};

fn key(fill: u8) -> Pubkey {
    let mut bytes = [0u8; 32];
    let mut i = 0;
    while i < 32 {
        bytes[i] = fill.wrapping_add(i as u8);
        i += 1;
    }
    Pubkey::new_from_array(bytes)
}

fn sample_account() -> TokenAccount {
    TokenAccount {
        mint: key(10),
        owner: key(60),
        amount: 123_456_789,
        delegate: Some(key(110)),
        state: AccountState::Initialized,
        is_native: Some(2_039_280),
        delegated_amount: 42,
        close_authority: Some(key(160)),
    }
}

fn minimal_account() -> TokenAccount {
    TokenAccount {
        mint: key(1),
        owner: key(2),
        amount: 0,
        delegate: None,
        state: AccountState::Uninitialized,
        is_native: None,
        delegated_amount: 0,
        close_authority: None,
    }
}

fn sample_mint() -> TokenMint {
    TokenMint {
        mint_authority: Some(key(33)),
        supply: 1_000_000_000,
        decimals: 9,
        is_initialized: true,
        freeze_authority: Some(key(77)),
    }
}

#[test]
fn account_round_trip_full() {
    let account = sample_account();
    let buf = pack_token_account(&account);
    assert_eq!(buf.len(), TOKEN_ACCOUNT_LENGTH);
    let decoded = unpack_token_account(buf.as_slice()).unwrap();
    assert_eq!(decoded, account);
}

#[test]
fn account_round_trip_minimal() {
    let account = minimal_account();
    let buf = pack_token_account(&account);
    assert_eq!(buf.len(), TOKEN_ACCOUNT_LENGTH);
    let decoded = unpack_token_account(buf.as_slice()).unwrap();
    assert_eq!(decoded, account);
}

#[test]
fn account_layout_offsets() {
    let account = sample_account();
    let buf = pack_token_account(&account);
    assert_eq!(&buf[0..32], &account.mint.to_bytes());
    assert_eq!(&buf[32..64], &account.owner.to_bytes());
    assert_eq!(&buf[64..72], &account.amount.to_le_bytes());
    assert_eq!(&buf[72..76], &[1, 0, 0, 0]);
    assert_eq!(&buf[76..108], &account.delegate.unwrap().to_bytes());
    assert_eq!(buf[108], 1);
    assert_eq!(&buf[109..113], &[1, 0, 0, 0]);
    assert_eq!(&buf[113..121], &account.is_native.unwrap().to_le_bytes());
    assert_eq!(&buf[121..129], &account.delegated_amount.to_le_bytes());
    assert_eq!(&buf[129..133], &[1, 0, 0, 0]);
    assert_eq!(&buf[133..165], &account.close_authority.unwrap().to_bytes());
}

#[test]
fn account_absent_options_encode_as_zeroes() {
    let buf = pack_token_account(&minimal_account());
    assert!(buf[72..108].iter().all(|b| *b == 0));
    assert!(buf[109..121].iter().all(|b| *b == 0));
    assert!(buf[129..165].iter().all(|b| *b == 0));
}

#[test]
fn account_rejects_malformed_delegate_tag() {
    let mut buf = pack_token_account(&sample_account());
    buf[72] = 2;
    buf[73] = 0;
    buf[74] = 0;
    buf[75] = 0;
    assert_eq!(
        unpack_token_account(buf.as_slice()),
        Err(CodecError::MalformedTag)
    );
}

#[test]
fn account_rejects_malformed_is_native_tag() {
    let mut buf = pack_token_account(&sample_account());
    buf[109] = 2;
    buf[110] = 0;
    buf[111] = 0;
    buf[112] = 0;
    assert_eq!(
        unpack_token_account(buf.as_slice()),
        Err(CodecError::MalformedTag)
    );
}

#[test]
fn account_rejects_malformed_close_authority_tag() {
    let mut buf = pack_token_account(&sample_account());
    buf[129] = 2;
    buf[130] = 0;
    buf[131] = 0;
    buf[132] = 0;
    assert_eq!(
        unpack_token_account(buf.as_slice()),
        Err(CodecError::MalformedTag)
    );
}

#[test]
fn account_rejects_invalid_state_byte() {
    let mut buf = pack_token_account(&sample_account());
    buf[108] = 3;
    assert_eq!(
        unpack_token_account(buf.as_slice()),
        Err(CodecError::InvalidDiscriminant)
    );
}

#[test]
fn account_accepts_every_legal_state_byte() {
    let states = [
        AccountState::Uninitialized,
        AccountState::Initialized,
        AccountState::Frozen,
    ];
    for state in states {
        let mut account = sample_account();
        account.state = state;
        let buf = pack_token_account(&account);
        let decoded = unpack_token_account(buf.as_slice()).unwrap();
        assert_eq!(decoded.state, state);
    }
}

#[test]
fn account_raw_fields_never_fail() {
    let mut buf = pack_token_account(&sample_account());
    for i in 0..32 {
        buf[i] = 0xFF;
        buf[32 + i] = 0xAB;
    }
    for i in 64..72 {
        buf[i] = 0xFF;
    }
    let decoded = unpack_token_account(buf.as_slice()).unwrap();
    assert_eq!(decoded.mint.to_bytes(), [0xFF; 32]);
    assert_eq!(decoded.owner.to_bytes(), [0xAB; 32]);
    assert_eq!(decoded.amount, u64::MAX);
}

#[test]
fn account_getters() {
    let mut account = sample_account();
    account.state = AccountState::Frozen;
    assert!(account.is_frozen());
    assert!(account.is_native());
    assert!(account.is_initialized());
    let minimal = minimal_account();
    assert!(!minimal.is_frozen());
    assert!(!minimal.is_native());
    assert!(!minimal.is_initialized());
}

#[test]
fn mint_round_trip_full() {
    let mint = sample_mint();
    let buf = pack_token_mint(&mint);
    assert_eq!(buf.len(), TOKEN_MINT_LENGTH);
    let decoded = unpack_token_mint(buf.as_slice()).unwrap();
    assert_eq!(decoded, mint);
}

#[test]
fn mint_round_trip_minimal() {
    let mint = TokenMint {
        mint_authority: None,
        supply: 0,
        decimals: 0,
        is_initialized: false,
        freeze_authority: None,
    };
    let buf = pack_token_mint(&mint);
    assert_eq!(buf.len(), TOKEN_MINT_LENGTH);
    let decoded = unpack_token_mint(buf.as_slice()).unwrap();
    assert_eq!(decoded, mint);
}

#[test]
fn mint_layout_offsets() {
    let mint = sample_mint();
    let buf = pack_token_mint(&mint);
    assert_eq!(&buf[0..4], &[1, 0, 0, 0]);
    assert_eq!(&buf[4..36], &mint.mint_authority.unwrap().to_bytes());
    assert_eq!(&buf[36..44], &mint.supply.to_le_bytes());
    assert_eq!(buf[44], 9);
    assert_eq!(buf[45], 1);
    assert_eq!(&buf[46..50], &[1, 0, 0, 0]);
    assert_eq!(&buf[50..82], &mint.freeze_authority.unwrap().to_bytes());
}

#[test]
fn mint_rejects_invalid_is_initialized_byte() {
    let mut buf = pack_token_mint(&sample_mint());
    buf[45] = 5;
    assert_eq!(
        unpack_token_mint(buf.as_slice()),
        Err(CodecError::InvalidDiscriminant)
    );
}

#[test]
fn mint_rejects_malformed_authority_tags() {
    let mut buf = pack_token_mint(&sample_mint());
    buf[0] = 2;
    assert_eq!(
        unpack_token_mint(buf.as_slice()),
        Err(CodecError::MalformedTag)
    );
    let mut buf = pack_token_mint(&sample_mint());
    buf[46] = 7;
    assert_eq!(
        unpack_token_mint(buf.as_slice()),
        Err(CodecError::MalformedTag)
    );
}

#[test]
fn pack_transfer_is_deterministic() {
    let one = TokenInstruction::Transfer { amount: 100 }.pack();
    let two = TokenInstruction::Transfer { amount: 100 }.pack();
    let mut expected = vec![3u8];
    expected.extend_from_slice(&100u64.to_le_bytes());
    assert_eq!(one, expected);
    assert_eq!(two, expected);
}

#[test]
fn pack_fieldless_instructions() {
    assert_eq!(TokenInstruction::InitializeAccount.pack(), vec![1]);
    assert_eq!(TokenInstruction::Revoke.pack(), vec![5]);
    assert_eq!(TokenInstruction::CloseAccount.pack(), vec![9]);
    assert_eq!(TokenInstruction::FreezeAccount.pack(), vec![10]);
    assert_eq!(TokenInstruction::ThawAccount.pack(), vec![11]);
}

#[test]
fn pack_amount_instructions() {
    let amount: u64 = 0x1122_3344_5566_7788;
    for (instruction, tag) in [
        (TokenInstruction::Transfer { amount }, 3u8),
        (TokenInstruction::Approve { amount }, 4u8),
        (TokenInstruction::MintTo { amount }, 7u8),
        (TokenInstruction::Burn { amount }, 8u8),
    ] {
        let buf = instruction.pack();
        assert_eq!(buf.len(), 9);
        assert_eq!(buf[0], tag);
        assert_eq!(&buf[1..9], &amount.to_le_bytes());
    }
}

#[test]
fn pack_initialize_multisig() {
    assert_eq!(TokenInstruction::InitializeMultisig { m: 5 }.pack(), vec![2, 5]);
}

#[test]
fn pack_initialize_mint() {
    let authority = key(3);
    let freeze = key(4);
    let buf = TokenInstruction::InitializeMint {
        decimals: 6,
        mint_authority: authority,
        freeze_authority: Some(freeze),
    }
    .pack();
    assert_eq!(buf.len(), 70);
    assert_eq!(buf[0], 0);
    assert_eq!(buf[1], 6);
    assert_eq!(&buf[2..34], &authority.to_bytes());
    assert_eq!(&buf[34..38], &[1, 0, 0, 0]);
    assert_eq!(&buf[38..70], &freeze.to_bytes());

    let buf = TokenInstruction::InitializeMint {
        decimals: 0,
        mint_authority: authority,
        freeze_authority: None,
    }
    .pack();
    assert_eq!(buf.len(), 70);
    assert_eq!(&buf[34..38], &[0, 0, 0, 0]);
    assert!(buf[38..70].iter().all(|b| *b == 0));
}

#[test]
fn pack_set_authority() {
    let new_authority = key(9);
    let buf = TokenInstruction::SetAuthority {
        authority_type: AuthorityType::FreezeAccount,
        new_authority: Some(new_authority),
    }
    .pack();
    assert_eq!(buf.len(), 38);
    assert_eq!(buf[0], 6);
    assert_eq!(buf[1], 1);
    assert_eq!(&buf[2..6], &[1, 0, 0, 0]);
    assert_eq!(&buf[6..38], &new_authority.to_bytes());

    let authority_bytes: Vec<u8> = [
        AuthorityType::MintTokens,
        AuthorityType::FreezeAccount,
        AuthorityType::AccountOwner,
        AuthorityType::CloseAccount,
    ]
    .into_iter()
    .map(|t| {
        TokenInstruction::SetAuthority { authority_type: t, new_authority: None }.pack()[1]
    })
    .collect();
    assert_eq!(authority_bytes, vec![0, 1, 2, 3]);
}
