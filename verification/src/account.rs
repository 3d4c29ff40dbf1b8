//! The 165-byte fixed-layout token-account record.
//!
//! Field layout, by offset: mint 0..32, owner 32..64, amount 64..72
//! (little-endian), delegate 72..108 (optional identifier), state 108,
//! is-native 109..121 (optional amount), delegated-amount 121..129
//! (little-endian), close-authority 129..165 (optional identifier).

use vstd::prelude::*;
use vstd::bytes::{spec_u64_from_le_bytes, spec_u64_to_le_bytes, u64_from_le_bytes};
use vstd::slice::slice_subrange;
use crate::codec::{
    lemma_pack_opt_key_len, lemma_pack_opt_u64_len, opt_key_view, push_key, push_opt_key,
    push_opt_u64, push_u64_le, read_key, spec_pack_opt_key, spec_pack_opt_u64,
    spec_unpack_opt_key, spec_unpack_opt_u64, unpack_opt_key, unpack_opt_u64, CodecError,
};
use crate::key::Pubkey;

verus! {

broadcast use vstd::array::group_array_axioms;

/// The encoded length of a token-account record.
pub const TOKEN_ACCOUNT_LENGTH: usize = 165;

/// The state of a token account, stored as one byte in the record.
#[derive(Clone, Copy, Debug, PartialEq, Eq, Structural)]
pub enum AccountState {
    /// The account is not yet initialized.
    Uninitialized,
    /// The account is initialized; owner and delegate may operate on it.
    Initialized,
    /// The account is frozen by the mint's freeze authority.
    Frozen,
}

/// The byte that encodes an account state.
pub open spec fn state_byte(s: AccountState) -> u8 {
    match s {
        AccountState::Uninitialized => 0,
        AccountState::Initialized => 1,
        AccountState::Frozen => 2,
    }
}

/// Whether a byte is a legal account-state encoding.
pub open spec fn valid_state_byte(b: u8) -> bool {
    b == 0 || b == 1 || b == 2
}

/// The account state a legal byte decodes to.
pub open spec fn byte_state(b: u8) -> AccountState
    recommends
        valid_state_byte(b),
{
    if b == 0 {
        AccountState::Uninitialized
    } else if b == 1 {
        AccountState::Initialized
    } else {
        AccountState::Frozen
    }
}

/// Writes an account state as its byte.
pub fn state_to_byte(s: AccountState) -> (r: u8)
    ensures
        r == state_byte(s),
{
    match s {
        AccountState::Uninitialized => 0,
        AccountState::Initialized => 1,
        AccountState::Frozen => 2,
    }
}

/// A token-account record.
#[derive(Clone, Copy, Debug, PartialEq, Eq)]
pub struct TokenAccount {
    /// The mint this account holds tokens of.
    pub mint: Pubkey,
    /// The owner of this account.
    pub owner: Pubkey,
    /// The amount of tokens this account holds.
    pub amount: u64,
    /// If present, the delegate authorized to spend `delegated_amount`.
    pub delegate: Option<Pubkey>,
    /// The account's state.
    pub state: AccountState,
    /// If present, the account wraps the native token and this is its
    /// rent-exempt reserve.
    pub is_native: Option<u64>,
    /// The amount the delegate is authorized to spend.
    pub delegated_amount: u64,
    /// If present, the authority that may close the account.
    pub close_authority: Option<Pubkey>,
}

/// The mathematical model of a token-account record: the same fields with
/// identifiers as byte sequences.
#[verifier::ext_equal]
pub struct TokenAccountV {
    pub mint: Seq<u8>,
    pub owner: Seq<u8>,
    pub amount: u64,
    pub delegate: Option<Seq<u8>>,
    pub state: AccountState,
    pub is_native: Option<u64>,
    pub delegated_amount: u64,
    pub close_authority: Option<Seq<u8>>,
}

impl View for TokenAccount {
    type V = TokenAccountV;

    open spec fn view(&self) -> TokenAccountV {
        TokenAccountV {
            mint: self.mint@,
            owner: self.owner@,
            amount: self.amount,
            delegate: opt_key_view(self.delegate),
            state: self.state,
            is_native: self.is_native,
            delegated_amount: self.delegated_amount,
            close_authority: opt_key_view(self.close_authority),
        }
    }
}

impl TokenAccountV {
    /// Every identifier field holds exactly 32 bytes.
    pub open spec fn wf(self) -> bool {
        &&& self.mint.len() == 32
        &&& self.owner.len() == 32
        &&& (self.delegate matches Option::Some(k) ==> k.len() == 32)
        &&& (self.close_authority matches Option::Some(k) ==> k.len() == 32)
    }
}

/// The view of any token-account value is well formed.
pub proof fn lemma_token_account_view_wf(a: TokenAccount)
    ensures
        a@.wf(),
{
}

/// The 165-byte encoding of a token-account record: the fields in layout
/// order, each in its fixed-width form.
pub open spec fn spec_pack_token_account(a: TokenAccountV) -> Seq<u8> {
    a.mint + a.owner + spec_u64_to_le_bytes(a.amount) + spec_pack_opt_key(a.delegate) + seq![
        state_byte(a.state),
    ] + spec_pack_opt_u64(a.is_native) + spec_u64_to_le_bytes(a.delegated_amount)
        + spec_pack_opt_key(a.close_authority)
}

/// Decodes a 165-byte buffer into a token-account record. The optional
/// fields are validated in layout order (delegate, then state, then
/// is-native, then close-authority); raw identifier and amount fields never
/// fail.
pub open spec fn spec_unpack_token_account(s: Seq<u8>) -> Result<TokenAccountV, CodecError>
    recommends
        s.len() == 165,
{
    match spec_unpack_opt_key(s.subrange(72, 108)) {
        Err(e) => Err(e),
        Ok(delegate) => if !valid_state_byte(s[108]) {
            Err(CodecError::InvalidDiscriminant)
        } else {
            match spec_unpack_opt_u64(s.subrange(109, 121)) {
                Err(e) => Err(e),
                Ok(is_native) => match spec_unpack_opt_key(s.subrange(129, 165)) {
                    Err(e) => Err(e),
                    Ok(close_authority) => Ok(
                        TokenAccountV {
                            mint: s.subrange(0, 32),
                            owner: s.subrange(32, 64),
                            amount: spec_u64_from_le_bytes(s.subrange(64, 72)),
                            delegate,
                            state: byte_state(s[108]),
                            is_native,
                            delegated_amount: spec_u64_from_le_bytes(s.subrange(121, 129)),
                            close_authority,
                        },
                    ),
                },
            }
        },
    }
}

/// A well-formed token-account encoding is exactly 165 bytes.
pub proof fn lemma_pack_token_account_len(a: TokenAccountV)
    requires
        a.wf(),
    ensures
        spec_pack_token_account(a).len() == 165,
{
    vstd::bytes::lemma_auto_spec_u64_to_from_le_bytes();
    lemma_pack_opt_key_len(a.delegate);
    lemma_pack_opt_key_len(a.close_authority);
    lemma_pack_opt_u64_len(a.is_native);
}

/// Each field of the encoding stands at its layout offset.
proof fn lemma_pack_token_account_fields(a: TokenAccountV)
    requires
        a.wf(),
    ensures
        spec_pack_token_account(a).len() == 165,
        spec_pack_token_account(a).subrange(0, 32) == a.mint,
        spec_pack_token_account(a).subrange(32, 64) == a.owner,
        spec_pack_token_account(a).subrange(64, 72) == spec_u64_to_le_bytes(a.amount),
        spec_pack_token_account(a).subrange(72, 108) == spec_pack_opt_key(a.delegate),
        spec_pack_token_account(a)[108] == state_byte(a.state),
        spec_pack_token_account(a).subrange(109, 121) == spec_pack_opt_u64(a.is_native),
        spec_pack_token_account(a).subrange(121, 129) == spec_u64_to_le_bytes(a.delegated_amount),
        spec_pack_token_account(a).subrange(129, 165) == spec_pack_opt_key(a.close_authority),
{
    vstd::bytes::lemma_auto_spec_u64_to_from_le_bytes();
    lemma_pack_opt_key_len(a.delegate);
    lemma_pack_opt_key_len(a.close_authority);
    lemma_pack_opt_u64_len(a.is_native);
    let s = spec_pack_token_account(a);
    assert(s.subrange(0, 32) =~= a.mint);
    assert(s.subrange(32, 64) =~= a.owner);
    assert(s.subrange(64, 72) =~= spec_u64_to_le_bytes(a.amount));
    assert(s.subrange(72, 108) =~= spec_pack_opt_key(a.delegate));
    assert(s.subrange(109, 121) =~= spec_pack_opt_u64(a.is_native));
    assert(s.subrange(121, 129) =~= spec_u64_to_le_bytes(a.delegated_amount));
    assert(s.subrange(129, 165) =~= spec_pack_opt_key(a.close_authority));
}

/// Decoding an encoded token-account record gives back the record.
pub proof fn lemma_token_account_round_trip(a: TokenAccountV)
    requires
        a.wf(),
    ensures
        spec_unpack_token_account(spec_pack_token_account(a)) == Ok::<
            TokenAccountV,
            CodecError,
        >(a),
{
    vstd::bytes::lemma_auto_spec_u64_to_from_le_bytes();
    lemma_pack_token_account_fields(a);
    crate::codec::lemma_opt_key_round_trip(a.delegate);
    crate::codec::lemma_opt_key_round_trip(a.close_authority);
    crate::codec::lemma_opt_u64_round_trip(a.is_native);
    let s = spec_pack_token_account(a);
    assert(valid_state_byte(s[108]));
    let d = spec_unpack_token_account(s);
    assert(d is Ok);
    assert(d->Ok_0 =~= a);
}

/// Encodes a token-account record into its fixed 165-byte buffer. Encoding
/// is total: it never fails.
pub fn pack_token_account(a: &TokenAccount) -> (r: Vec<u8>)
    ensures
        r@ == spec_pack_token_account(a@),
        r@.len() == 165,
{
    let mut buf: Vec<u8> = Vec::new();
    push_key(&mut buf, &a.mint);
    push_key(&mut buf, &a.owner);
    push_u64_le(&mut buf, a.amount);
    push_opt_key(&mut buf, &a.delegate);
    buf.push(state_to_byte(a.state));
    push_opt_u64(&mut buf, &a.is_native);
    push_u64_le(&mut buf, a.delegated_amount);
    push_opt_key(&mut buf, &a.close_authority);
    proof {
        lemma_pack_token_account_len(a@);
        assert(buf@ =~= spec_pack_token_account(a@));
    }
    buf
}

/// Decodes a 165-byte buffer into a token-account record, validating the
/// optional-value tags and the state byte, and nothing else.
pub fn unpack_token_account(src: &[u8]) -> (r: Result<TokenAccount, CodecError>)
    requires
        src@.len() == 165,
    ensures
        match r {
            Ok(a) => spec_unpack_token_account(src@) == Ok::<TokenAccountV, CodecError>(a@),
            Err(e) => spec_unpack_token_account(src@) == Err::<TokenAccountV, CodecError>(e),
        },
{
    let mint = read_key(src, 0);
    let owner = read_key(src, 32);
    let amount = u64_from_le_bytes(slice_subrange(src, 64, 72));
    let delegate = match unpack_opt_key(slice_subrange(src, 72, 108)) {
        Ok(d) => d,
        Err(e) => {
            return Err(e);
        },
    };
    let state_b = src[108];
    if !(state_b == 0 || state_b == 1 || state_b == 2) {
        return Err(CodecError::InvalidDiscriminant);
    }
    let state = if state_b == 0 {
        AccountState::Uninitialized
    } else if state_b == 1 {
        AccountState::Initialized
    } else {
        AccountState::Frozen
    };
    let is_native = match unpack_opt_u64(slice_subrange(src, 109, 121)) {
        Ok(o) => o,
        Err(e) => {
            return Err(e);
        },
    };
    let delegated_amount = u64_from_le_bytes(slice_subrange(src, 121, 129));
    let close_authority = match unpack_opt_key(slice_subrange(src, 129, 165)) {
        Ok(c) => c,
        Err(e) => {
            return Err(e);
        },
    };
    let account = TokenAccount {
        mint,
        owner,
        amount,
        delegate,
        state,
        is_native,
        delegated_amount,
        close_authority,
    };
    proof {
        assert(spec_unpack_token_account(src@)->Ok_0 =~= account@);
    }
    Ok(account)
}

impl TokenAccount {
    /// Whether the account is frozen.
    pub fn is_frozen(&self) -> (r: bool)
        ensures
            r == (self.state == AccountState::Frozen),
    {
        self.state == AccountState::Frozen
    }

    /// Whether the account wraps the native token.
    pub fn is_native(&self) -> (r: bool)
        ensures
            r == (self.is_native is Some),
    {
        self.is_native.is_some()
    }

    /// Whether the account has been initialized.
    pub fn is_initialized(&self) -> (r: bool)
        ensures
            r == (self.state != AccountState::Uninitialized),
    {
        self.state != AccountState::Uninitialized
    }
}

} // verus!
