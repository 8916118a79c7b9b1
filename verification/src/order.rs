//! The order of the keys of the score table.
//!
//! Raw keys are ordered bytewise. Because a stage number is written with its
//! most significant byte first, that order sorts the keys by stage before it
//! sorts them by address, and the keys of one stage are exactly those between
//! the number of the stage and the number of the next.

use vstd::prelude::*;
use crate::keys::{be_bytes, in_stage, lemma_be_bytes_injective, lemma_score_key_in_stage, score_key};
use crate::query::page_end;
use crate::store::{bytes_lt, is_range, within};

verus! {

/// The number whose big-endian bytes are the first eight of `bytes`.
pub open spec fn be_value(bytes: Seq<u8>) -> u64 {
    ((bytes[0] as u64) << 56) | ((bytes[1] as u64) << 48) | ((bytes[2] as u64) << 40) | ((
    bytes[3] as u64) << 32) | ((bytes[4] as u64) << 24) | ((bytes[5] as u64) << 16) | ((
    bytes[6] as u64) << 8) | (bytes[7] as u64)
}

/// Any eight bytes are the big-endian bytes of a number.
pub proof fn lemma_be_value(bytes: Seq<u8>)
    requires
        bytes.len() == 8,
    ensures
        be_bytes(be_value(bytes)) == bytes,
{
    let b0 = bytes[0];
    let b1 = bytes[1];
    let b2 = bytes[2];
    let b3 = bytes[3];
    let b4 = bytes[4];
    let b5 = bytes[5];
    let b6 = bytes[6];
    let b7 = bytes[7];
    let v = be_value(bytes);
    assert(v == ((b0 as u64) << 56) | ((b1 as u64) << 48) | ((b2 as u64) << 40) | ((b3 as u64)
        << 32) | ((b4 as u64) << 24) | ((b5 as u64) << 16) | ((b6 as u64) << 8) | (b7 as u64));
    assert(v == ((b0 as u64) << 56) | ((b1 as u64) << 48) | ((b2 as u64) << 40) | ((b3 as u64)
        << 32) | ((b4 as u64) << 24) | ((b5 as u64) << 16) | ((b6 as u64) << 8) | (b7 as u64)
        ==> ((v >> 56) & 0xff) as u8 == b0 && ((v >> 48) & 0xff) as u8 == b1 && ((v >> 40)
        & 0xff) as u8 == b2 && ((v >> 32) & 0xff) as u8 == b3 && ((v >> 24) & 0xff) as u8 == b4
        && ((v >> 16) & 0xff) as u8 == b5 && ((v >> 8) & 0xff) as u8 == b6 && (v & 0xff) as u8
        == b7) by (bit_vector);
    assert(be_bytes(v) =~= bytes);
}

/// Bytes that two keys share at their start do not decide their order.
pub proof fn lemma_order_skips_shared(a: Seq<u8>, b: Seq<u8>, n: int)
    requires
        0 <= n <= a.len(),
        n <= b.len(),
        a.take(n) == b.take(n),
    ensures
        bytes_lt(a, b) == bytes_lt(a.skip(n), b.skip(n)),
    decreases n,
{
    if n == 0 {
        assert(a.skip(0) =~= a);
        assert(b.skip(0) =~= b);
    } else {
        assert(a[0] == a.take(n)[0] && b[0] == b.take(n)[0]);
        assert(a.drop_first().take(n - 1) =~= a.take(n).drop_first());
        assert(b.drop_first().take(n - 1) =~= b.take(n).drop_first());
        lemma_order_skips_shared(a.drop_first(), b.drop_first(), n - 1);
        assert(a.drop_first().skip(n - 1) =~= a.skip(n));
        assert(b.drop_first().skip(n - 1) =~= b.skip(n));
    }
}

/// How a key compares with a shorter one: as its start of that length does,
/// but for a key that extends the shorter one, which comes after it.
pub proof fn lemma_order_by_start(key: Seq<u8>, short: Seq<u8>)
    requires
        key.len() >= short.len(),
    ensures
        bytes_lt(key, short) == bytes_lt(key.take(short.len() as int), short),
        bytes_lt(short, key) == (bytes_lt(short, key.take(short.len() as int)) || (short
            == key.take(short.len() as int) && key.len() > short.len())),
    decreases short.len(),
{
    let n = short.len() as int;
    let start = key.take(n);
    if n == 0 {
        assert(start =~= short);
    } else {
        assert(start[0] == key[0]);
        if key[0] == short[0] {
            lemma_order_by_start(key.drop_first(), short.drop_first());
            assert(key.drop_first().take(n - 1) =~= start.drop_first());
            if short.drop_first() == start.drop_first() {
                assert forall|i: int| 0 <= i < n implies short[i] == start[i] by {
                    if i > 0 {
                        assert(short.drop_first()[i - 1] == short[i]);
                        assert(start.drop_first()[i - 1] == start[i]);
                    }
                }
                assert(short =~= start);
            }
        }
    }
}

/// Of two keys, the one that comes first does not start with the later
/// `n` bytes.
pub proof fn lemma_starts_follow_order(a: Seq<u8>, b: Seq<u8>, n: int)
    requires
        0 <= n <= a.len(),
        n <= b.len(),
        bytes_lt(a, b),
    ensures
        !bytes_lt(b.take(n), a.take(n)),
    decreases n,
{
    if n > 0 {
        assert(a.take(n)[0] == a[0] && b.take(n)[0] == b[0]);
        if a[0] == b[0] {
            lemma_starts_follow_order(a.drop_first(), b.drop_first(), n - 1);
            assert(a.drop_first().take(n - 1) =~= a.take(n).drop_first());
            assert(b.drop_first().take(n - 1) =~= b.take(n).drop_first());
        }
    }
}

/// Eight bytes compared one after the other, the first difference deciding.
pub open spec fn first_difference_lt(x: Seq<u8>, y: Seq<u8>) -> bool {
    if x[0] != y[0] {
        x[0] < y[0]
    } else if x[1] != y[1] {
        x[1] < y[1]
    } else if x[2] != y[2] {
        x[2] < y[2]
    } else if x[3] != y[3] {
        x[3] < y[3]
    } else if x[4] != y[4] {
        x[4] < y[4]
    } else if x[5] != y[5] {
        x[5] < y[5]
    } else if x[6] != y[6] {
        x[6] < y[6]
    } else {
        x[7] < y[7]
    }
}

/// Where two keys first differ at position `n`, the byte there decides.
pub proof fn lemma_decided_at(x: Seq<u8>, y: Seq<u8>, n: int)
    requires
        0 <= n < x.len(),
        n < y.len(),
        forall|i: int| 0 <= i < n ==> x[i] == y[i],
        x[n] != y[n],
    ensures
        bytes_lt(x, y) == (x[n] < y[n]),
{
    assert(x.take(n) =~= y.take(n));
    lemma_order_skips_shared(x, y, n);
    assert(x.skip(n)[0] == x[n] && y.skip(n)[0] == y[n]);
}

/// The order of keys, on eight bytes.
pub proof fn lemma_order_of_eight(x: Seq<u8>, y: Seq<u8>)
    requires
        x.len() == 8,
        y.len() == 8,
    ensures
        bytes_lt(x, y) == first_difference_lt(x, y),
{
    if x[0] != y[0] {
        lemma_decided_at(x, y, 0);
    } else if x[1] != y[1] {
        lemma_decided_at(x, y, 1);
    } else if x[2] != y[2] {
        lemma_decided_at(x, y, 2);
    } else if x[3] != y[3] {
        lemma_decided_at(x, y, 3);
    } else if x[4] != y[4] {
        lemma_decided_at(x, y, 4);
    } else if x[5] != y[5] {
        lemma_decided_at(x, y, 5);
    } else if x[6] != y[6] {
        lemma_decided_at(x, y, 6);
    } else if x[7] != y[7] {
        lemma_decided_at(x, y, 7);
    } else {
        assert(x.take(8) =~= y.take(8));
        lemma_order_skips_shared(x, y, 8);
    }
}

/// Numbers are ordered as their big-endian bytes are.
pub proof fn lemma_be_order(a: u64, b: u64)
    ensures
        bytes_lt(be_bytes(a), be_bytes(b)) == (a < b),
{
    let x = be_bytes(a);
    let y = be_bytes(b);
    lemma_order_of_eight(x, y);
    let a0 = ((a >> 56) & 0xff) as u8;
    let a1 = ((a >> 48) & 0xff) as u8;
    let a2 = ((a >> 40) & 0xff) as u8;
    let a3 = ((a >> 32) & 0xff) as u8;
    let a4 = ((a >> 24) & 0xff) as u8;
    let a5 = ((a >> 16) & 0xff) as u8;
    let a6 = ((a >> 8) & 0xff) as u8;
    let a7 = (a & 0xff) as u8;
    let b0 = ((b >> 56) & 0xff) as u8;
    let b1 = ((b >> 48) & 0xff) as u8;
    let b2 = ((b >> 40) & 0xff) as u8;
    let b3 = ((b >> 32) & 0xff) as u8;
    let b4 = ((b >> 24) & 0xff) as u8;
    let b5 = ((b >> 16) & 0xff) as u8;
    let b6 = ((b >> 8) & 0xff) as u8;
    let b7 = (b & 0xff) as u8;
    assert(x[0] == a0 && x[1] == a1 && x[2] == a2 && x[3] == a3 && x[4] == a4 && x[5] == a5
        && x[6] == a6 && x[7] == a7);
    assert(y[0] == b0 && y[1] == b1 && y[2] == b2 && y[3] == b3 && y[4] == b4 && y[5] == b5
        && y[6] == b6 && y[7] == b7);
    assert(a0 == ((a >> 56) & 0xff) as u8 && a1 == ((a >> 48) & 0xff) as u8 && a2 == ((a >> 40)
        & 0xff) as u8 && a3 == ((a >> 32) & 0xff) as u8 && a4 == ((a >> 24) & 0xff) as u8 && a5
        == ((a >> 16) & 0xff) as u8 && a6 == ((a >> 8) & 0xff) as u8 && a7 == (a & 0xff) as u8
        && b0 == ((b >> 56) & 0xff) as u8 && b1 == ((b >> 48) & 0xff) as u8 && b2 == ((b >> 40)
        & 0xff) as u8 && b3 == ((b >> 32) & 0xff) as u8 && b4 == ((b >> 24) & 0xff) as u8 && b5
        == ((b >> 16) & 0xff) as u8 && b6 == ((b >> 8) & 0xff) as u8 && b7 == (b & 0xff) as u8
        ==> ((a < b) == (if a0 != b0 {
        a0 < b0
    } else if a1 != b1 {
        a1 < b1
    } else if a2 != b2 {
        a2 < b2
    } else if a3 != b3 {
        a3 < b3
    } else if a4 != b4 {
        a4 < b4
    } else if a5 != b5 {
        a5 < b5
    } else if a6 != b6 {
        a6 < b6
    } else {
        a7 < b7
    }))) by (bit_vector);
}

/// The keys of a stage that name a user are exactly the keys between the
/// number of the stage and the number of the next stage.
pub proof fn lemma_stage_range(key: Seq<u8>, stage: u64)
    requires
        key.len() >= 8,
    ensures
        within(key, be_bytes(stage), page_end(stage)) == (in_stage(key, stage) && key.len() > 8),
{
    let start = key.take(8);
    assert(start =~= key.subrange(0, 8));
    lemma_be_value(start);
    let found = be_value(start);
    lemma_order_by_start(key, be_bytes(stage));
    lemma_be_order(stage, found);
    if start == be_bytes(stage) {
        lemma_be_bytes_injective(found, stage);
    }
    if stage < u64::MAX {
        let next = (stage + 1) as u64;
        lemma_order_by_start(key, be_bytes(next));
        lemma_be_order(found, next);
    }
}

/// A key that comes after a key of a stage and before the number of the next
/// stage is a key of that stage.
pub proof fn lemma_after_key_of_stage(key: Seq<u8>, after: Seq<u8>, stage: u64)
    requires
        key.len() >= 8,
        in_stage(after, stage),
        within(key, after, page_end(stage)),
    ensures
        in_stage(key, stage),
{
    let start = key.take(8);
    assert(start =~= key.subrange(0, 8));
    assert(after.take(8) =~= after.subrange(0, 8));
    lemma_be_value(start);
    let found = be_value(start);
    lemma_starts_follow_order(after, key, 8);
    lemma_be_order(found, stage);
    if stage < u64::MAX {
        let next = (stage + 1) as u64;
        lemma_order_by_start(key, be_bytes(next));
        lemma_be_order(found, next);
    } else {
        assert(found <= stage);
    }
    assert(found == stage);
}

/// The scores between the number of a stage and the number of the next are
/// the scores of that stage: each row found there belongs to the stage, and
/// every user of the stage with a name is found there.
pub proof fn lemma_range_is_stage(
    rows: Seq<(Seq<u8>, u64)>,
    table: Map<Seq<u8>, Option<u64>>,
    stage: u64,
    addr: Seq<char>,
)
    requires
        is_range(rows, table, be_bytes(stage), page_end(stage)),
    ensures
        forall|i: int| 0 <= i < rows.len() && rows[i].0.len() >= 8 ==> in_stage(rows[i].0, stage),
        addr.len() > 0 && table.dom().contains(score_key(addr, stage)) ==> exists|i: int|
            0 <= i < rows.len() && #[trigger] rows[i].0 == score_key(addr, stage),
{
    assert forall|i: int| 0 <= i < rows.len() && rows[i].0.len() >= 8 implies in_stage(
        rows[i].0,
        stage,
    ) by {
        lemma_stage_range(rows[i].0, stage);
    }
    if addr.len() > 0 && table.dom().contains(score_key(addr, stage)) {
        let key = score_key(addr, stage);
        lemma_score_key_in_stage(addr, stage);
        assert(vstd::utf8::encode_utf8(addr).len() > 0);
        lemma_stage_range(key, stage);
    }
}

} // verus!
