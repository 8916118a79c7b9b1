//! Keys of the score table.
//!
//! A score entry is kept under the eight big-endian bytes of its stage followed
//! by the UTF-8 bytes of the user's address. Ordered bytewise, the entries of
//! one stage therefore lie next to each other, and stages follow each other in
//! numeric order.

use vstd::prelude::*;
use vstd::utf8::{decode_utf8, encode_utf8, valid_utf8};
use cosmwasm_std::{Addr, StdError};
use cw_storage_plus::{IntKey, KeyDeserialize};

verus! {

/// The eight bytes of `n`, most significant first.
pub open spec fn be_bytes(n: u64) -> Seq<u8> {
    seq![
        ((n >> 56) & 0xff) as u8,
        ((n >> 48) & 0xff) as u8,
        ((n >> 40) & 0xff) as u8,
        ((n >> 32) & 0xff) as u8,
        ((n >> 24) & 0xff) as u8,
        ((n >> 16) & 0xff) as u8,
        ((n >> 8) & 0xff) as u8,
        (n & 0xff) as u8,
    ]
}

/// The key of the score that `addr` has in `stage`.
pub open spec fn score_key(addr: Seq<char>, stage: u64) -> Seq<u8> {
    be_bytes(stage) + encode_utf8(addr)
}

/// Whether a key of the score table belongs to `stage`.
pub open spec fn in_stage(key: Seq<u8>, stage: u64) -> bool {
    key.len() >= 8 && key.subrange(0, 8) == be_bytes(stage)
}

/// `IntKey::to_cw_bytes` on a `u64`: the big-endian bytes of the number.
#[verifier::external_body]
pub(crate) fn stage_bytes(stage: u64) -> (r: Vec<u8>)
    ensures
        r@ == be_bytes(stage),
{
    stage.to_cw_bytes().to_vec()
}

/// `IntKey::from_cw_bytes` for `u64`: the number whose big-endian bytes
/// these are.
#[verifier::external_body]
pub(crate) fn stage_of_bytes(bytes: [u8; 8]) -> (r: u64)
    ensures
        be_bytes(r) == bytes@,
{
    u64::from_cw_bytes(bytes)
}

/// `KeyDeserialize::from_vec` for `Addr`: the address that the bytes spell,
/// or an error where they are not UTF-8.
#[verifier::external_body]
pub(crate) fn addr_of_bytes(bytes: Vec<u8>) -> (r: Result<String, StdError>)
    ensures
        r matches Ok(addr) ==> valid_utf8(bytes@) && addr@ == decode_utf8(bytes@),
        r is Err ==> !valid_utf8(bytes@),
{
    Addr::from_vec(bytes).map(Addr::into_string)
}

/// Two numbers with the same big-endian bytes are the same number.
pub proof fn lemma_be_bytes_injective(a: u64, b: u64)
    requires
        be_bytes(a) == be_bytes(b),
    ensures
        a == b,
{
    let x = be_bytes(a);
    let y = be_bytes(b);
    assert(x[0] == y[0] && x[1] == y[1] && x[2] == y[2] && x[3] == y[3]);
    assert(x[4] == y[4] && x[5] == y[5] && x[6] == y[6] && x[7] == y[7]);
    assert(((a >> 56) & 0xff) as u8 == ((b >> 56) & 0xff) as u8 && ((a >> 48) & 0xff) as u8 == ((b
        >> 48) & 0xff) as u8 && ((a >> 40) & 0xff) as u8 == ((b >> 40) & 0xff) as u8 && ((a >> 32)
        & 0xff) as u8 == ((b >> 32) & 0xff) as u8 && ((a >> 24) & 0xff) as u8 == ((b >> 24)
        & 0xff) as u8 && ((a >> 16) & 0xff) as u8 == ((b >> 16) & 0xff) as u8 && ((a >> 8)
        & 0xff) as u8 == ((b >> 8) & 0xff) as u8 && (a & 0xff) as u8 == (b & 0xff) as u8 ==> a
        == b) by (bit_vector);
}

/// A key belongs to one stage only.
pub proof fn lemma_one_stage(key: Seq<u8>, s: u64, t: u64)
    requires
        in_stage(key, s),
        in_stage(key, t),
    ensures
        s == t,
{
    lemma_be_bytes_injective(s, t);
}

/// The key of a score belongs to the stage of the score.
pub proof fn lemma_score_key_in_stage(addr: Seq<char>, stage: u64)
    ensures
        in_stage(score_key(addr, stage), stage),
        score_key(addr, stage).subrange(8, score_key(addr, stage).len() as int) == encode_utf8(addr),
{
    let key = score_key(addr, stage);
    assert(be_bytes(stage).len() == 8);
    assert(key.subrange(0, 8) =~= be_bytes(stage));
    assert(key.subrange(8, key.len() as int) =~= encode_utf8(addr));
}

/// The key under which the score of `user_addr` in `stage` is kept.
pub fn user_score_key(user_addr: &str, stage: u64) -> (key: Vec<u8>)
    ensures
        key@ == score_key(user_addr@, stage),
{
    let mut key = stage_bytes(stage);
    key.extend_from_slice(user_addr.as_bytes());
    key
}

} // verus!
