//! Hashing through the Soroban host, and byte encodings of integers.
use vstd::prelude::*;
use soroban_sdk::Env;
use soroban_sdk::xdr::ToXdr;

verus! {

#[verifier::external_type_specification]
#[verifier::external_body]
pub struct ExEnv(soroban_sdk::Env);

/// The SHA-256 digest of a byte string.
pub uninterp spec fn spec_sha256(data: Seq<u8>) -> Seq<u8>;

/// `soroban_sdk::crypto::Crypto::sha256` over `data`: the trusted claim is
/// that the host returns the SHA-256 digest of the bytes, a 32-byte value
/// that depends on the bytes alone.
#[verifier::external_body]
pub fn sha256(env: &Env, data: &Vec<u8>) -> (digest: Vec<u8>)
    ensures
        digest@ == spec_sha256(data@),
        digest@.len() == 32,
{
    env.crypto().sha256(&soroban_sdk::Bytes::from_slice(env, data.as_slice())).to_array().to_vec()
}

/// The zero bytes that pad `n` bytes to a multiple of four.
pub open spec fn xdr_padding(n: nat) -> Seq<u8> {
    Seq::new(((4 - n % 4) % 4) as nat, |i: int| 0u8)
}

/// The XDR encoding of an `ScVal` string holding `bytes`: the tag of the
/// string variant (14) and the length, both as big-endian 32-bit words, then
/// the bytes, then zero padding to a multiple of four.
pub open spec fn string_xdr_bytes(bytes: Seq<u8>) -> Seq<u8> {
    be32(14) + be32(bytes.len() as u32) + bytes + xdr_padding(bytes.len())
}

/// `soroban_sdk::xdr::ToXdr::to_xdr` on the `soroban_sdk::String` holding
/// `bytes`: the trusted claim is that the host serializes the value as the
/// XDR `ScVal::String` encoding (stellar-xdr's `ScVal` and `StringM`
/// writers): tag, length, bytes, zero padding. Lengths beyond a 32-bit word
/// have no XDR encoding and are excluded.
#[verifier::external_body]
pub fn string_xdr(env: &Env, bytes: &Vec<u8>) -> (encoded: Vec<u8>)
    requires
        bytes@.len() <= u32::MAX,
    ensures
        encoded@ == string_xdr_bytes(bytes@),
{
    soroban_sdk::String::from_bytes(env, bytes.as_slice()).to_xdr(env).iter().collect()
}

/// Big-endian bytes of a `u32`.
pub open spec fn be32(x: u32) -> Seq<u8> {
    seq![(x >> 24u32) as u8, (x >> 16u32) as u8, (x >> 8u32) as u8, x as u8]
}

/// Big-endian bytes of a `u64`.
pub open spec fn be64(x: u64) -> Seq<u8> {
    seq![
        (x >> 56u64) as u8,
        (x >> 48u64) as u8,
        (x >> 40u64) as u8,
        (x >> 32u64) as u8,
        (x >> 24u64) as u8,
        (x >> 16u64) as u8,
        (x >> 8u64) as u8,
        x as u8,
    ]
}

/// The `u32` with big-endian bytes `b0 b1 b2 b3`.
pub open spec fn from_be32(b0: u8, b1: u8, b2: u8, b3: u8) -> u32 {
    ((b0 as u32) << 24u32) | ((b1 as u32) << 16u32) | ((b2 as u32) << 8u32) | (b3 as u32)
}

/// Decoding the big-endian bytes of `x` gives back `x`.
pub proof fn lemma_be32_roundtrip(x: u32)
    ensures
        from_be32(be32(x)[0], be32(x)[1], be32(x)[2], be32(x)[3]) == x,
{
    assert(((((x >> 24u32) as u8) as u32) << 24u32) | ((((x >> 16u32) as u8) as u32) << 16u32)
        | ((((x >> 8u32) as u8) as u32) << 8u32) | ((x as u8) as u32) == x) by (bit_vector);
}

/// Appends the big-endian bytes of `x`.
pub fn push_be32(dst: &mut Vec<u8>, x: u32)
    ensures
        final(dst)@ == old(dst)@ + be32(x),
{
    dst.push((x >> 24u32) as u8);
    dst.push((x >> 16u32) as u8);
    dst.push((x >> 8u32) as u8);
    dst.push(x as u8);
    assert(dst@ =~= old(dst)@ + be32(x));
}

/// Appends the big-endian bytes of `x`.
pub fn push_be64(dst: &mut Vec<u8>, x: u64)
    ensures
        final(dst)@ == old(dst)@ + be64(x),
{
    dst.push((x >> 56u64) as u8);
    dst.push((x >> 48u64) as u8);
    dst.push((x >> 40u64) as u8);
    dst.push((x >> 32u64) as u8);
    dst.push((x >> 24u64) as u8);
    dst.push((x >> 16u64) as u8);
    dst.push((x >> 8u64) as u8);
    dst.push(x as u8);
    assert(dst@ =~= old(dst)@ + be64(x));
}

/// Appends `src`.
pub fn push_all(dst: &mut Vec<u8>, src: &Vec<u8>)
    ensures
        final(dst)@ == old(dst)@ + src@,
{
    let mut i: usize = 0;
    while i < src.len()
        invariant
            i <= src@.len(),
            dst@ == old(dst)@ + src@.subrange(0, i as int),
        decreases src@.len() - i,
    {
        dst.push(src[i]);
        i = i + 1;
        assert(dst@ =~= old(dst)@ + src@.subrange(0, i as int));
    }
    assert(src@.subrange(0, src@.len() as int) =~= src@);
}

} // verus!
