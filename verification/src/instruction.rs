//! Instruction payload packing for the token program's operation set.
//!
//! An encoded instruction is a single discriminant byte in 0..=11 followed by
//! the variant's fields in declared order, each in its fixed-width form:
//! amounts as 8-byte little-endian integers, identifiers as 32 raw bytes, and
//! optional identifiers in the tagged 36-byte encoding of the record codec.
//! Variants with no fields encode as the discriminant byte alone. Packing is
//! total: it never fails.

use vstd::prelude::*;
use vstd::bytes::spec_u64_to_le_bytes;
use crate::codec::{opt_key_view, push_key, push_opt_key, push_u64_le, spec_pack_opt_key};
use crate::key::Pubkey;

verus! {

/// Which authority of a mint or account a `SetAuthority` instruction
/// replaces, stored as one byte after the discriminant.
#[derive(Clone, Copy, Debug, PartialEq, Eq, Structural)]
pub enum AuthorityType {
    /// The authority that may mint new tokens.
    MintTokens,
    /// The authority that may freeze token accounts.
    FreezeAccount,
    /// The owner of a token account.
    AccountOwner,
    /// The authority that may close a token account.
    CloseAccount,
}

/// The byte that encodes an authority type.
pub open spec fn authority_type_byte(t: AuthorityType) -> u8 {
    match t {
        AuthorityType::MintTokens => 0,
        AuthorityType::FreezeAccount => 1,
        AuthorityType::AccountOwner => 2,
        AuthorityType::CloseAccount => 3,
    }
}

/// Writes an authority type as its byte.
pub fn authority_type_to_byte(t: AuthorityType) -> (r: u8)
    ensures
        r == authority_type_byte(t),
{
    match t {
        AuthorityType::MintTokens => 0,
        AuthorityType::FreezeAccount => 1,
        AuthorityType::AccountOwner => 2,
        AuthorityType::CloseAccount => 3,
    }
}

/// An instruction of the token program's operation set. The discriminant
/// bytes run 0..=11 in declaration order.
#[derive(Clone, Copy, Debug, PartialEq, Eq)]
pub enum TokenInstruction {
    /// Initializes a mint record (discriminant 0).
    InitializeMint {
        decimals: u8,
        mint_authority: Pubkey,
        freeze_authority: Option<Pubkey>,
    },
    /// Initializes a token account (discriminant 1).
    InitializeAccount,
    /// Initializes a multisignature account (discriminant 2).
    InitializeMultisig { m: u8 },
    /// Transfers tokens (discriminant 3).
    Transfer { amount: u64 },
    /// Approves a delegate (discriminant 4).
    Approve { amount: u64 },
    /// Revokes a delegate (discriminant 5).
    Revoke,
    /// Replaces an authority (discriminant 6).
    SetAuthority { authority_type: AuthorityType, new_authority: Option<Pubkey> },
    /// Mints new tokens (discriminant 7).
    MintTo { amount: u64 },
    /// Burns tokens (discriminant 8).
    Burn { amount: u64 },
    /// Closes a token account (discriminant 9).
    CloseAccount,
    /// Freezes a token account (discriminant 10).
    FreezeAccount,
    /// Thaws a token account (discriminant 11).
    ThawAccount,
}

/// The mathematical model of an instruction: the same variants with
/// identifiers as byte sequences.
#[verifier::ext_equal]
pub enum TokenInstructionV {
    InitializeMint { decimals: u8, mint_authority: Seq<u8>, freeze_authority: Option<Seq<u8>> },
    InitializeAccount,
    InitializeMultisig { m: u8 },
    Transfer { amount: u64 },
    Approve { amount: u64 },
    Revoke,
    SetAuthority { authority_type: AuthorityType, new_authority: Option<Seq<u8>> },
    MintTo { amount: u64 },
    Burn { amount: u64 },
    CloseAccount,
    FreezeAccount,
    ThawAccount,
}

impl View for TokenInstruction {
    type V = TokenInstructionV;

    open spec fn view(&self) -> TokenInstructionV {
        match *self {
            TokenInstruction::InitializeMint { decimals, mint_authority, freeze_authority } =>
                TokenInstructionV::InitializeMint {
                    decimals,
                    mint_authority: mint_authority@,
                    freeze_authority: opt_key_view(freeze_authority),
                },
            TokenInstruction::InitializeAccount => TokenInstructionV::InitializeAccount,
            TokenInstruction::InitializeMultisig { m } => TokenInstructionV::InitializeMultisig {
                m,
            },
            TokenInstruction::Transfer { amount } => TokenInstructionV::Transfer { amount },
            TokenInstruction::Approve { amount } => TokenInstructionV::Approve { amount },
            TokenInstruction::Revoke => TokenInstructionV::Revoke,
            TokenInstruction::SetAuthority { authority_type, new_authority } =>
                TokenInstructionV::SetAuthority {
                    authority_type,
                    new_authority: opt_key_view(new_authority),
                },
            TokenInstruction::MintTo { amount } => TokenInstructionV::MintTo { amount },
            TokenInstruction::Burn { amount } => TokenInstructionV::Burn { amount },
            TokenInstruction::CloseAccount => TokenInstructionV::CloseAccount,
            TokenInstruction::FreezeAccount => TokenInstructionV::FreezeAccount,
            TokenInstruction::ThawAccount => TokenInstructionV::ThawAccount,
        }
    }
}

/// The packed bytes of an instruction: the discriminant byte, then the
/// fields in declared order.
pub open spec fn spec_pack_instruction(i: TokenInstructionV) -> Seq<u8> {
    match i {
        TokenInstructionV::InitializeMint { decimals, mint_authority, freeze_authority } => seq![
            0u8,
            decimals,
        ] + mint_authority + spec_pack_opt_key(freeze_authority),
        TokenInstructionV::InitializeAccount => seq![1u8],
        TokenInstructionV::InitializeMultisig { m } => seq![2u8, m],
        TokenInstructionV::Transfer { amount } => seq![3u8] + spec_u64_to_le_bytes(amount),
        TokenInstructionV::Approve { amount } => seq![4u8] + spec_u64_to_le_bytes(amount),
        TokenInstructionV::Revoke => seq![5u8],
        TokenInstructionV::SetAuthority { authority_type, new_authority } => seq![
            6u8,
            authority_type_byte(authority_type),
        ] + spec_pack_opt_key(new_authority),
        TokenInstructionV::MintTo { amount } => seq![7u8] + spec_u64_to_le_bytes(amount),
        TokenInstructionV::Burn { amount } => seq![8u8] + spec_u64_to_le_bytes(amount),
        TokenInstructionV::CloseAccount => seq![9u8],
        TokenInstructionV::FreezeAccount => seq![10u8],
        TokenInstructionV::ThawAccount => seq![11u8],
    }
}

impl TokenInstruction {
    /// Packs the instruction into its byte payload: the discriminant byte
    /// followed by the fields in declared order.
    pub fn pack(&self) -> (r: Vec<u8>)
        ensures
            r@ == spec_pack_instruction(self@),
    {
        let mut buf: Vec<u8> = Vec::new();
        match self {
            TokenInstruction::InitializeMint { decimals, mint_authority, freeze_authority } => {
                buf.push(0u8);
                buf.push(*decimals);
                push_key(&mut buf, mint_authority);
                push_opt_key(&mut buf, freeze_authority);
                proof {
                    assert(buf@ =~= spec_pack_instruction(self@));
                }
            }
            TokenInstruction::InitializeAccount => {
                buf.push(1u8);
                proof {
                    assert(buf@ =~= spec_pack_instruction(self@));
                }
            }
            TokenInstruction::InitializeMultisig { m } => {
                buf.push(2u8);
                buf.push(*m);
                proof {
                    assert(buf@ =~= spec_pack_instruction(self@));
                }
            }
            TokenInstruction::Transfer { amount } => {
                buf.push(3u8);
                push_u64_le(&mut buf, *amount);
                proof {
                    assert(buf@ =~= spec_pack_instruction(self@));
                }
            }
            TokenInstruction::Approve { amount } => {
                buf.push(4u8);
                push_u64_le(&mut buf, *amount);
                proof {
                    assert(buf@ =~= spec_pack_instruction(self@));
                }
            }
            TokenInstruction::Revoke => {
                buf.push(5u8);
                proof {
                    assert(buf@ =~= spec_pack_instruction(self@));
                }
            }
            TokenInstruction::SetAuthority { authority_type, new_authority } => {
                buf.push(6u8);
                buf.push(authority_type_to_byte(*authority_type));
                push_opt_key(&mut buf, new_authority);
                proof {
                    assert(buf@ =~= spec_pack_instruction(self@));
                }
            }
            TokenInstruction::MintTo { amount } => {
                buf.push(7u8);
                push_u64_le(&mut buf, *amount);
                proof {
                    assert(buf@ =~= spec_pack_instruction(self@));
                }
            }
            TokenInstruction::Burn { amount } => {
                buf.push(8u8);
                push_u64_le(&mut buf, *amount);
                proof {
                    assert(buf@ =~= spec_pack_instruction(self@));
                }
            }
            TokenInstruction::CloseAccount => {
                buf.push(9u8);
                proof {
                    assert(buf@ =~= spec_pack_instruction(self@));
                }
            }
            TokenInstruction::FreezeAccount => {
                buf.push(10u8);
                proof {
                    assert(buf@ =~= spec_pack_instruction(self@));
                }
            }
            TokenInstruction::ThawAccount => {
                buf.push(11u8);
                proof {
                    assert(buf@ =~= spec_pack_instruction(self@));
                }
            }
        }
        buf
    }
}

} // verus!
