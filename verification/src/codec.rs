//! Shared pieces of the fixed-layout codec: the decode error type, the
//! tagged encoding of optional values, and verified helpers that write and
//! read the fixed-width fields of a record buffer.
//!
//! An optional 32-byte identifier is encoded as a 4-byte tag followed by a
//! 32-byte payload; an optional 64-bit amount as the same tag followed by an
//! 8-byte little-endian payload. Tag `[1,0,0,0]` means present, `[0,0,0,0]`
//! means absent (the payload is then written as zeroes and ignored on
//! decode); any other tag is a decode error.

use vstd::prelude::*;
use vstd::bytes::{spec_u64_from_le_bytes, spec_u64_to_le_bytes, u64_from_le_bytes, u64_to_le_bytes};
use vstd::slice::slice_subrange;
use crate::key::Pubkey;

verus! {

broadcast use vstd::array::group_array_axioms;

/// Why a buffer failed to decode.
#[derive(Clone, Copy, Debug, PartialEq, Eq, Structural)]
pub enum CodecError {
    /// An optional-value tag was neither `[0,0,0,0]` nor `[1,0,0,0]`.
    MalformedTag,
    /// A state or boolean byte was outside its small legal range.
    InvalidDiscriminant,
}

/// `n` zero bytes, the canonical payload of an absent optional value.
pub open spec fn zero_bytes(n: int) -> Seq<u8> {
    Seq::new(n as nat, |i: int| 0u8)
}

/// The 4-byte tag of an absent optional value.
pub open spec fn tag_none() -> Seq<u8> {
    seq![0u8, 0u8, 0u8, 0u8]
}

/// The 4-byte tag of a present optional value.
pub open spec fn tag_some() -> Seq<u8> {
    seq![1u8, 0u8, 0u8, 0u8]
}

/// The view of an optional identifier: the key's bytes, if present.
pub open spec fn opt_key_view(o: Option<Pubkey>) -> Option<Seq<u8>> {
    match o {
        Option::Some(k) => Option::Some(k@),
        Option::None => Option::None,
    }
}

/// The 36-byte encoding of an optional 32-byte identifier.
pub open spec fn spec_pack_opt_key(o: Option<Seq<u8>>) -> Seq<u8> {
    match o {
        Option::Some(k) => tag_some() + k,
        Option::None => tag_none() + zero_bytes(32),
    }
}

/// The 12-byte encoding of an optional 64-bit amount.
pub open spec fn spec_pack_opt_u64(o: Option<u64>) -> Seq<u8> {
    match o {
        Option::Some(a) => tag_some() + spec_u64_to_le_bytes(a),
        Option::None => tag_none() + zero_bytes(8),
    }
}

/// Decodes a 36-byte optional-identifier field: the tag selects presence,
/// and for an absent value the payload is ignored.
pub open spec fn spec_unpack_opt_key(s: Seq<u8>) -> Result<Option<Seq<u8>>, CodecError>
    recommends
        s.len() == 36,
{
    if s.subrange(0, 4) == tag_none() {
        Ok(Option::None)
    } else if s.subrange(0, 4) == tag_some() {
        Ok(Option::Some(s.subrange(4, 36)))
    } else {
        Err(CodecError::MalformedTag)
    }
}

/// Decodes a 12-byte optional-amount field.
pub open spec fn spec_unpack_opt_u64(s: Seq<u8>) -> Result<Option<u64>, CodecError>
    recommends
        s.len() == 12,
{
    if s.subrange(0, 4) == tag_none() {
        Ok(Option::None)
    } else if s.subrange(0, 4) == tag_some() {
        Ok(Option::Some(spec_u64_from_le_bytes(s.subrange(4, 12))))
    } else {
        Err(CodecError::MalformedTag)
    }
}

/// The encoding of an optional identifier is always 36 bytes.
pub(crate) proof fn lemma_pack_opt_key_len(o: Option<Seq<u8>>)
    requires
        o matches Option::Some(k) ==> k.len() == 32,
    ensures
        spec_pack_opt_key(o).len() == 36,
{
}

/// The encoding of an optional amount is always 12 bytes.
pub(crate) proof fn lemma_pack_opt_u64_len(o: Option<u64>)
    ensures
        spec_pack_opt_u64(o).len() == 12,
{
    vstd::bytes::lemma_auto_spec_u64_to_from_le_bytes();
}

/// Decoding an encoded optional identifier gives back the value.
pub proof fn lemma_opt_key_round_trip(o: Option<Seq<u8>>)
    requires
        o matches Option::Some(k) ==> k.len() == 32,
    ensures
        spec_unpack_opt_key(spec_pack_opt_key(o)) == Ok::<Option<Seq<u8>>, CodecError>(o),
{
    match o {
        Option::Some(k) => {
            let s = spec_pack_opt_key(o);
            assert(s.subrange(0, 4) =~= tag_some());
            assert(s.subrange(0, 4) != tag_none()) by {
                assert(tag_some()[0] != tag_none()[0]);
            }
            assert(s.subrange(4, 36) =~= k);
        }
        Option::None => {
            let s = spec_pack_opt_key(o);
            assert(s.subrange(0, 4) =~= tag_none());
        }
    }
}

/// Decoding an encoded optional amount gives back the value.
pub proof fn lemma_opt_u64_round_trip(o: Option<u64>)
    ensures
        spec_unpack_opt_u64(spec_pack_opt_u64(o)) == Ok::<Option<u64>, CodecError>(o),
{
    vstd::bytes::lemma_auto_spec_u64_to_from_le_bytes();
    match o {
        Option::Some(a) => {
            let s = spec_pack_opt_u64(o);
            assert(s.subrange(0, 4) =~= tag_some());
            assert(s.subrange(0, 4) != tag_none()) by {
                assert(tag_some()[0] != tag_none()[0]);
            }
            assert(s.subrange(4, 12) =~= spec_u64_to_le_bytes(a));
        }
        Option::None => {
            let s = spec_pack_opt_u64(o);
            assert(s.subrange(0, 4) =~= tag_none());
        }
    }
}

/// Appends `n` zero bytes to the buffer.
pub(crate) fn push_zeros(buf: &mut Vec<u8>, n: usize)
    ensures
        final(buf)@ == old(buf)@ + zero_bytes(n as int),
{
    let mut i: usize = 0;
    while i < n
        invariant
            i <= n,
            buf@ == old(buf)@ + zero_bytes(i as int),
        decreases n - i,
    {
        buf.push(0u8);
        proof {
            assert(old(buf)@ + zero_bytes(i as int) + seq![0u8] =~= old(buf)@ + zero_bytes(
                i as int + 1,
            ));
        }
        i = i + 1;
    }
}

/// Appends the 32 bytes of an identifier to the buffer.
pub(crate) fn push_key(buf: &mut Vec<u8>, k: &Pubkey)
    ensures
        final(buf)@ == old(buf)@ + k@,
{
    let mut i: usize = 0;
    while i < 32
        invariant
            i <= 32,
            buf@ == old(buf)@ + k@.subrange(0, i as int),
        decreases 32 - i,
    {
        buf.push(k.bytes[i]);
        proof {
            assert(old(buf)@ + k@.subrange(0, i as int) + seq![k@[i as int]] =~= old(buf)@
                + k@.subrange(0, i as int + 1));
        }
        i = i + 1;
    }
    proof {
        assert(k@.subrange(0, 32) =~= k@);
    }
}

/// Appends the 8-byte little-endian encoding of an amount to the buffer.
pub(crate) fn push_u64_le(buf: &mut Vec<u8>, x: u64)
    ensures
        final(buf)@ == old(buf)@ + spec_u64_to_le_bytes(x),
{
    let mut bytes = u64_to_le_bytes(x);
    buf.append(&mut bytes);
}

/// Appends the 36-byte encoding of an optional identifier to the buffer.
pub(crate) fn push_opt_key(buf: &mut Vec<u8>, o: &Option<Pubkey>)
    ensures
        final(buf)@ == old(buf)@ + spec_pack_opt_key(opt_key_view(*o)),
{
    match o {
        Option::Some(k) => {
            buf.push(1u8);
            buf.push(0u8);
            buf.push(0u8);
            buf.push(0u8);
            proof {
                assert(buf@ =~= old(buf)@ + tag_some());
            }
            push_key(buf, k);
            proof {
                assert(old(buf)@ + tag_some() + k@ =~= old(buf)@ + (tag_some() + k@));
            }
        }
        Option::None => {
            buf.push(0u8);
            buf.push(0u8);
            buf.push(0u8);
            buf.push(0u8);
            proof {
                assert(buf@ =~= old(buf)@ + tag_none());
            }
            push_zeros(buf, 32);
            proof {
                assert(old(buf)@ + tag_none() + zero_bytes(32) =~= old(buf)@ + (tag_none()
                    + zero_bytes(32)));
            }
        }
    }
}

/// Appends the 12-byte encoding of an optional amount to the buffer.
pub(crate) fn push_opt_u64(buf: &mut Vec<u8>, o: &Option<u64>)
    ensures
        final(buf)@ == old(buf)@ + spec_pack_opt_u64(*o),
{
    match o {
        Option::Some(a) => {
            buf.push(1u8);
            buf.push(0u8);
            buf.push(0u8);
            buf.push(0u8);
            proof {
                assert(buf@ =~= old(buf)@ + tag_some());
            }
            push_u64_le(buf, *a);
            proof {
                assert(old(buf)@ + tag_some() + spec_u64_to_le_bytes(*a) =~= old(buf)@ + (
                tag_some() + spec_u64_to_le_bytes(*a)));
            }
        }
        Option::None => {
            buf.push(0u8);
            buf.push(0u8);
            buf.push(0u8);
            buf.push(0u8);
            proof {
                assert(buf@ =~= old(buf)@ + tag_none());
            }
            push_zeros(buf, 8);
            proof {
                assert(old(buf)@ + tag_none() + zero_bytes(8) =~= old(buf)@ + (tag_none()
                    + zero_bytes(8)));
            }
        }
    }
}

/// Copies 32 bytes starting at `off` out of a buffer into an identifier.
pub(crate) fn read_key(s: &[u8], off: usize) -> (r: Pubkey)
    requires
        off + 32 <= s@.len(),
    ensures
        r@ == s@.subrange(off as int, off as int + 32),
{
    let slen = s.len();
    let mut bytes = [0u8; 32];
    let mut i: usize = 0;
    while i < 32
        invariant
            i <= 32,
            off + 32 <= slen,
            slen == s@.len(),
            bytes@.len() == 32,
            forall|j: int| 0 <= j < i ==> bytes@[j] == s@[off + j],
        decreases 32 - i,
    {
        bytes[i] = s[off + i];
        i = i + 1;
    }
    proof {
        assert(bytes@ =~= s@.subrange(off as int, off as int + 32));
    }
    Pubkey { bytes }
}

/// Decodes a 36-byte optional-identifier field of a buffer.
pub(crate) fn unpack_opt_key(s: &[u8]) -> (r: Result<Option<Pubkey>, CodecError>)
    requires
        s@.len() == 36,
    ensures
        match r {
            Ok(o) => spec_unpack_opt_key(s@) == Ok::<Option<Seq<u8>>, CodecError>(opt_key_view(o)),
            Err(e) => spec_unpack_opt_key(s@) == Err::<Option<Seq<u8>>, CodecError>(e),
        },
{
    let b0 = s[0];
    let b1 = s[1];
    let b2 = s[2];
    let b3 = s[3];
    if b0 == 0 && b1 == 0 && b2 == 0 && b3 == 0 {
        proof {
            assert(s@.subrange(0, 4) =~= tag_none());
        }
        Ok(Option::None)
    } else if b0 == 1 && b1 == 0 && b2 == 0 && b3 == 0 {
        proof {
            assert(s@.subrange(0, 4) =~= tag_some());
            assert(s@.subrange(0, 4) != tag_none()) by {
                assert(tag_some()[0] != tag_none()[0]);
            }
        }
        let k = read_key(s, 4);
        Ok(Option::Some(k))
    } else {
        proof {
            assert(s@.subrange(0, 4)[0] == s@[0]);
            assert(s@.subrange(0, 4)[1] == s@[1]);
            assert(s@.subrange(0, 4)[2] == s@[2]);
            assert(s@.subrange(0, 4)[3] == s@[3]);
            assert(s@.subrange(0, 4) != tag_none());
            assert(s@.subrange(0, 4) != tag_some());
        }
        Err(CodecError::MalformedTag)
    }
}

/// Decodes a 12-byte optional-amount field of a buffer.
pub(crate) fn unpack_opt_u64(s: &[u8]) -> (r: Result<Option<u64>, CodecError>)
    requires
        s@.len() == 12,
    ensures
        match r {
            Ok(o) => spec_unpack_opt_u64(s@) == Ok::<Option<u64>, CodecError>(o),
            Err(e) => spec_unpack_opt_u64(s@) == Err::<Option<u64>, CodecError>(e),
        },
{
    let b0 = s[0];
    let b1 = s[1];
    let b2 = s[2];
    let b3 = s[3];
    if b0 == 0 && b1 == 0 && b2 == 0 && b3 == 0 {
        proof {
            assert(s@.subrange(0, 4) =~= tag_none());
        }
        Ok(Option::None)
    } else if b0 == 1 && b1 == 0 && b2 == 0 && b3 == 0 {
        proof {
            assert(s@.subrange(0, 4) =~= tag_some());
            assert(s@.subrange(0, 4) != tag_none()) by {
                assert(tag_some()[0] != tag_none()[0]);
            }
        }
        let body = slice_subrange(s, 4, 12);
        let a = u64_from_le_bytes(body);
        Ok(Option::Some(a))
    } else {
        proof {
            assert(s@.subrange(0, 4)[0] == s@[0]);
            assert(s@.subrange(0, 4)[1] == s@[1]);
            assert(s@.subrange(0, 4)[2] == s@[2]);
            assert(s@.subrange(0, 4)[3] == s@[3]);
            assert(s@.subrange(0, 4) != tag_none());
            assert(s@.subrange(0, 4) != tag_some());
        }
        Err(CodecError::MalformedTag)
    }
}

} // verus!
