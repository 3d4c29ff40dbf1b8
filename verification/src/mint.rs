//! The 82-byte fixed-layout token-mint record.
//!
//! Field layout, by offset: mint-authority 0..36 (optional identifier),
//! supply 36..44 (little-endian), decimals 44, is-initialized 45 (strictly 0
//! or 1), freeze-authority 46..82 (optional identifier).

use vstd::prelude::*;
use vstd::bytes::{spec_u64_from_le_bytes, spec_u64_to_le_bytes, u64_from_le_bytes};
use vstd::slice::slice_subrange;
use crate::codec::{
    lemma_pack_opt_key_len, opt_key_view, push_opt_key, push_u64_le, spec_pack_opt_key,
    spec_unpack_opt_key, unpack_opt_key, CodecError,
};
use crate::key::Pubkey;

verus! {

/// The encoded length of a token-mint record.
pub const TOKEN_MINT_LENGTH: usize = 82;

/// A token-mint record.
#[derive(Clone, Copy, Debug, PartialEq, Eq)]
pub struct TokenMint {
    /// If present, the authority that may mint new tokens; absent means the
    /// supply is fixed.
    pub mint_authority: Option<Pubkey>,
    /// Total supply of tokens.
    pub supply: u64,
    /// Number of base-10 digits to the right of the decimal place.
    pub decimals: u8,
    /// Whether the record has been initialized.
    pub is_initialized: bool,
    /// If present, the authority that may freeze token accounts.
    pub freeze_authority: Option<Pubkey>,
}

/// The mathematical model of a token-mint record.
#[verifier::ext_equal]
pub struct TokenMintV {
    pub mint_authority: Option<Seq<u8>>,
    pub supply: u64,
    pub decimals: u8,
    pub is_initialized: bool,
    pub freeze_authority: Option<Seq<u8>>,
}

impl View for TokenMint {
    type V = TokenMintV;

    open spec fn view(&self) -> TokenMintV {
        TokenMintV {
            mint_authority: opt_key_view(self.mint_authority),
            supply: self.supply,
            decimals: self.decimals,
            is_initialized: self.is_initialized,
            freeze_authority: opt_key_view(self.freeze_authority),
        }
    }
}

impl TokenMintV {
    /// Every identifier field holds exactly 32 bytes.
    pub open spec fn wf(self) -> bool {
        &&& (self.mint_authority matches Option::Some(k) ==> k.len() == 32)
        &&& (self.freeze_authority matches Option::Some(k) ==> k.len() == 32)
    }
}

/// The view of any token-mint value is well formed.
pub proof fn lemma_token_mint_view_wf(m: TokenMint)
    ensures
        m@.wf(),
{
}

/// The byte that encodes the is-initialized flag.
pub open spec fn bool_byte(b: bool) -> u8 {
    if b {
        1
    } else {
        0
    }
}

/// The 82-byte encoding of a token-mint record.
pub open spec fn spec_pack_token_mint(m: TokenMintV) -> Seq<u8> {
    spec_pack_opt_key(m.mint_authority) + spec_u64_to_le_bytes(m.supply) + seq![m.decimals] + seq![
        bool_byte(m.is_initialized),
    ] + spec_pack_opt_key(m.freeze_authority)
}

/// Decodes an 82-byte buffer into a token-mint record. The fields are
/// validated in layout order (mint-authority tag, then the is-initialized
/// byte, then the freeze-authority tag); raw amount and decimals bytes never
/// fail.
pub open spec fn spec_unpack_token_mint(s: Seq<u8>) -> Result<TokenMintV, CodecError>
    recommends
        s.len() == 82,
{
    match spec_unpack_opt_key(s.subrange(0, 36)) {
        Err(e) => Err(e),
        Ok(mint_authority) => if !(s[45] == 0 || s[45] == 1) {
            Err(CodecError::InvalidDiscriminant)
        } else {
            match spec_unpack_opt_key(s.subrange(46, 82)) {
                Err(e) => Err(e),
                Ok(freeze_authority) => Ok(
                    TokenMintV {
                        mint_authority,
                        supply: spec_u64_from_le_bytes(s.subrange(36, 44)),
                        decimals: s[44],
                        is_initialized: s[45] == 1,
                        freeze_authority,
                    },
                ),
            }
        },
    }
}

/// A well-formed token-mint encoding is exactly 82 bytes.
pub proof fn lemma_pack_token_mint_len(m: TokenMintV)
    requires
        m.wf(),
    ensures
        spec_pack_token_mint(m).len() == 82,
{
    vstd::bytes::lemma_auto_spec_u64_to_from_le_bytes();
    lemma_pack_opt_key_len(m.mint_authority);
    lemma_pack_opt_key_len(m.freeze_authority);
}

/// Each field of the encoding stands at its layout offset.
proof fn lemma_pack_token_mint_fields(m: TokenMintV)
    requires
        m.wf(),
    ensures
        spec_pack_token_mint(m).len() == 82,
        spec_pack_token_mint(m).subrange(0, 36) == spec_pack_opt_key(m.mint_authority),
        spec_pack_token_mint(m).subrange(36, 44) == spec_u64_to_le_bytes(m.supply),
        spec_pack_token_mint(m)[44] == m.decimals,
        spec_pack_token_mint(m)[45] == bool_byte(m.is_initialized),
        spec_pack_token_mint(m).subrange(46, 82) == spec_pack_opt_key(m.freeze_authority),
{
    vstd::bytes::lemma_auto_spec_u64_to_from_le_bytes();
    lemma_pack_opt_key_len(m.mint_authority);
    lemma_pack_opt_key_len(m.freeze_authority);
    let s = spec_pack_token_mint(m);
    assert(s.subrange(0, 36) =~= spec_pack_opt_key(m.mint_authority));
    assert(s.subrange(36, 44) =~= spec_u64_to_le_bytes(m.supply));
    assert(s.subrange(46, 82) =~= spec_pack_opt_key(m.freeze_authority));
}

/// Decoding an encoded token-mint record gives back the record.
pub proof fn lemma_token_mint_round_trip(m: TokenMintV)
    requires
        m.wf(),
    ensures
        spec_unpack_token_mint(spec_pack_token_mint(m)) == Ok::<TokenMintV, CodecError>(m),
{
    vstd::bytes::lemma_auto_spec_u64_to_from_le_bytes();
    lemma_pack_token_mint_fields(m);
    crate::codec::lemma_opt_key_round_trip(m.mint_authority);
    crate::codec::lemma_opt_key_round_trip(m.freeze_authority);
    let s = spec_pack_token_mint(m);
    let d = spec_unpack_token_mint(s);
    assert(d is Ok);
    assert(d->Ok_0 =~= m);
}

/// Encodes a token-mint record into its fixed 82-byte buffer. Encoding is
/// total: it never fails.
pub fn pack_token_mint(m: &TokenMint) -> (r: Vec<u8>)
    ensures
        r@ == spec_pack_token_mint(m@),
        r@.len() == 82,
{
    let mut buf: Vec<u8> = Vec::new();
    push_opt_key(&mut buf, &m.mint_authority);
    push_u64_le(&mut buf, m.supply);
    buf.push(m.decimals);
    buf.push(if m.is_initialized {
        1u8
    } else {
        0u8
    });
    push_opt_key(&mut buf, &m.freeze_authority);
    proof {
        lemma_pack_token_mint_len(m@);
        assert(buf@ =~= spec_pack_token_mint(m@));
    }
    buf
}

/// Decodes an 82-byte buffer into a token-mint record, validating the two
/// optional-identifier tags and the is-initialized byte, and nothing else.
pub fn unpack_token_mint(src: &[u8]) -> (r: Result<TokenMint, CodecError>)
    requires
        src@.len() == 82,
    ensures
        match r {
            Ok(m) => spec_unpack_token_mint(src@) == Ok::<TokenMintV, CodecError>(m@),
            Err(e) => spec_unpack_token_mint(src@) == Err::<TokenMintV, CodecError>(e),
        },
{
    let mint_authority = match unpack_opt_key(slice_subrange(src, 0, 36)) {
        Ok(o) => o,
        Err(e) => {
            return Err(e);
        },
    };
    let supply = u64_from_le_bytes(slice_subrange(src, 36, 44));
    let decimals = src[44];
    let init_b = src[45];
    if !(init_b == 0 || init_b == 1) {
        return Err(CodecError::InvalidDiscriminant);
    }
    let is_initialized = init_b == 1;
    let freeze_authority = match unpack_opt_key(slice_subrange(src, 46, 82)) {
        Ok(o) => o,
        Err(e) => {
            return Err(e);
        },
    };
    let mint = TokenMint { mint_authority, supply, decimals, is_initialized, freeze_authority };
    proof {
        assert(spec_unpack_token_mint(src@)->Ok_0 =~= mint@);
    }
    Ok(mint)
}

impl TokenMint {
    /// Whether the mint record has been initialized.
    pub fn is_initialized(&self) -> (r: bool)
        ensures
            r == self.is_initialized,
    {
        self.is_initialized
    }
}

} // verus!
