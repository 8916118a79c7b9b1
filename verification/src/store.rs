//! The storage that holds the ledger, and the calls into it.
//!
//! The ledger lives in a `cosmwasm_std::MemoryStorage` and is reached through
//! typed `cw_storage_plus::Map` tables, each under a namespace of its own.
//! Verus cannot look inside either, so this module names what the tables hold
//! and states, call by call, what each outside function does to them. Nothing
//! here is proved: these contracts are the assumptions on which the rest of
//! the crate stands.

use vstd::prelude::*;
use cosmwasm_std::{Addr, Empty, MemoryStorage, Order, StdError};
use cw_storage_plus::Bound;

verus! {

/// The ordered in-memory key-value storage of `cosmwasm_std`.
#[verifier::external_type_specification]
#[verifier::external_body]
pub struct ExMemoryStorage(MemoryStorage);

/// The error type that `cosmwasm_std` and `cw_storage_plus` report with.
#[verifier::external_type_specification]
#[verifier::external_body]
pub struct ExStdError(StdError);

/// A stage as it is stored: its number, its total score, whether it is final.
pub type StageRow = (u64, u64, bool);

/// The addresses that have an entry in the `Map<Addr, Empty>` table kept under
/// namespace `ns`.
pub uninterp spec fn allow_rows(store: MemoryStorage, ns: Seq<char>) -> Set<Seq<char>>;

/// The entries of the `Map<u64, StageRow>` table kept under namespace `ns`, by
/// key. An entry whose stored bytes do not decode to a `StageRow` is `None`.
pub uninterp spec fn stage_rows(store: MemoryStorage, ns: Seq<char>) -> Map<u64, Option<StageRow>>;

/// The entries of the `Map<Vec<u8>, u64>` table kept under namespace `ns`, by
/// key. An entry whose stored bytes do not decode to a `u64` is `None`.
pub uninterp spec fn score_rows(store: MemoryStorage, ns: Seq<char>) -> Map<Seq<u8>, Option<u64>>;

/// A namespace that `cw_storage_plus` can frame: its length prefix has two bytes.
pub open spec fn namespace_fits(ns: Seq<char>) -> bool {
    vstd::utf8::encode_utf8(ns).len() <= 0xFFFF
}

/// Tables under any other namespace than `ns` hold after what they held before.
pub open spec fn others_kept(before: MemoryStorage, after: MemoryStorage, ns: Seq<char>) -> bool {
    &&& forall|o: Seq<char>|
        o != ns && namespace_fits(o) ==> #[trigger] allow_rows(after, o) == allow_rows(before, o)
    &&& forall|o: Seq<char>|
        o != ns && namespace_fits(o) ==> #[trigger] stage_rows(after, o) == stage_rows(before, o)
    &&& forall|o: Seq<char>|
        o != ns && namespace_fits(o) ==> #[trigger] score_rows(after, o) == score_rows(before, o)
}

/// `Map::<Addr, Empty>::has`: whether the address has an entry. The call only
/// looks for the key and decodes nothing.
#[verifier::external_body]
pub(crate) fn allow_has(store: &MemoryStorage, ns: &str, addr: &str) -> (r: bool)
    requires
        namespace_fits(ns@),
    ensures
        r == allow_rows(*store, ns@).contains(addr@),
{
    cw_storage_plus::Map::<Addr, Empty>::new(ns).has(store, Addr::unchecked(addr))
}

/// `Map::<Addr, Empty>::save`: writes the entry of the address. Encoding an
/// `Empty` cannot fail, so the call returns `Ok`; only the one key is written,
/// and keys of other namespaces differ from it in their length prefix or name.
#[verifier::external_body]
pub(crate) fn allow_save(store: &mut MemoryStorage, ns: &str, addr: &str) -> (r: Result<(), StdError>)
    requires
        namespace_fits(ns@),
    ensures
        r is Ok,
        allow_rows(*final(store), ns@) == allow_rows(*old(store), ns@).insert(addr@),
        others_kept(*old(store), *final(store), ns@),
{
    cw_storage_plus::Map::<Addr, Empty>::new(ns).save(store, Addr::unchecked(addr), &Empty {})
}

/// `Map::<Addr, Empty>::remove`: deletes the entry of the address, if there is one.
#[verifier::external_body]
pub(crate) fn allow_remove(store: &mut MemoryStorage, ns: &str, addr: &str)
    requires
        namespace_fits(ns@),
    ensures
        allow_rows(*final(store), ns@) == allow_rows(*old(store), ns@).remove(addr@),
        others_kept(*old(store), *final(store), ns@),
{
    cw_storage_plus::Map::<Addr, Empty>::new(ns).remove(store, Addr::unchecked(addr))
}

/// `Map::<u64, StageRow>::may_load`: reads the entry of a stage. `Ok(None)`
/// where the key is absent, the decoded value where it is present, and an
/// error where the bytes found there do not decode.
#[verifier::external_body]
pub(crate) fn stage_may_load(store: &MemoryStorage, ns: &str, stage: u64) -> (r: Result<
    Option<StageRow>,
    StdError,
>)
    requires
        namespace_fits(ns@),
    ensures
        r matches Ok(None) ==> !stage_rows(*store, ns@).dom().contains(stage),
        r matches Ok(Some(row)) ==> stage_rows(*store, ns@).contains_pair(stage, Some(row)),
        r is Err ==> stage_rows(*store, ns@).contains_pair(stage, None),
{
    cw_storage_plus::Map::<u64, StageRow>::new(ns).may_load(store, stage)
}

/// `Map::<u64, StageRow>::save`: writes the entry of a stage. Encoding two
/// integers and a boolean cannot fail, so the call returns `Ok`, and what was
/// written decodes to the same value.
#[verifier::external_body]
pub(crate) fn stage_save(store: &mut MemoryStorage, ns: &str, stage: u64, row: StageRow) -> (r:
    Result<(), StdError>)
    requires
        namespace_fits(ns@),
    ensures
        r is Ok,
        stage_rows(*final(store), ns@) == stage_rows(*old(store), ns@).insert(stage, Some(row)),
        others_kept(*old(store), *final(store), ns@),
{
    cw_storage_plus::Map::<u64, StageRow>::new(ns).save(store, stage, &row)
}

/// `Map::<Vec<u8>, u64>::may_load`: reads the entry under a raw key. `Ok(None)`
/// where the key is absent, the decoded value where it is present, and an
/// error where the bytes found there do not decode.
#[verifier::external_body]
pub(crate) fn score_may_load(store: &MemoryStorage, ns: &str, key: &Vec<u8>) -> (r: Result<
    Option<u64>,
    StdError,
>)
    requires
        namespace_fits(ns@),
    ensures
        r matches Ok(None) ==> !score_rows(*store, ns@).dom().contains(key@),
        r matches Ok(Some(score)) ==> score_rows(*store, ns@).contains_pair(key@, Some(score)),
        r is Err ==> score_rows(*store, ns@).contains_pair(key@, None),
{
    cw_storage_plus::Map::<Vec<u8>, u64>::new(ns).may_load(store, key.clone())
}

/// `Map::<Vec<u8>, u64>::save`: writes the entry under a raw key. Encoding an
/// integer cannot fail, so the call returns `Ok`, and what was written decodes
/// to the same value.
#[verifier::external_body]
pub(crate) fn score_save(store: &mut MemoryStorage, ns: &str, key: &Vec<u8>, score: u64) -> (r:
    Result<(), StdError>)
    requires
        namespace_fits(ns@),
    ensures
        r is Ok,
        score_rows(*final(store), ns@) == score_rows(*old(store), ns@).insert(key@, Some(score)),
        others_kept(*old(store), *final(store), ns@),
{
    cw_storage_plus::Map::<Vec<u8>, u64>::new(ns).save(store, key.clone(), &score)
}

/// Whether `a` comes before `b` in the order of raw keys: byte by byte, a
/// proper prefix before what extends it.
pub open spec fn bytes_lt(a: Seq<u8>, b: Seq<u8>) -> bool
    decreases a.len(),
{
    if b.len() == 0 {
        false
    } else if a.len() == 0 {
        true
    } else if a[0] != b[0] {
        a[0] < b[0]
    } else {
        bytes_lt(a.drop_first(), b.drop_first())
    }
}

/// Whether `key` lies strictly after `after` and, where there is a `before`,
/// strictly before it.
pub open spec fn within(key: Seq<u8>, after: Seq<u8>, before: Option<Seq<u8>>) -> bool {
    &&& bytes_lt(after, key)
    &&& before matches Some(end) ==> bytes_lt(key, end)
}

/// The rows of a list, each as the raw key and the score.
pub open spec fn row_views(rows: Seq<(Vec<u8>, u64)>) -> Seq<(Seq<u8>, u64)> {
    rows.map_values(|row: (Vec<u8>, u64)| (row.0@, row.1))
}

/// Whether `rows` are the entries of `table` with a key between `after` and
/// `before`, each once, in ascending order of their keys.
pub open spec fn is_range(
    rows: Seq<(Seq<u8>, u64)>,
    table: Map<Seq<u8>, Option<u64>>,
    after: Seq<u8>,
    before: Option<Seq<u8>>,
) -> bool {
    &&& forall|i: int, j: int| 0 <= i < j < rows.len() ==> bytes_lt(#[trigger] rows[i].0, #[trigger] rows[j].0)
    &&& forall|i: int|
        0 <= i < rows.len() ==> within(#[trigger] rows[i].0, after, before) && table.contains_pair(
            rows[i].0,
            Some(rows[i].1),
        )
    &&& forall|key: Seq<u8>| #[trigger]
        table.dom().contains(key) && within(key, after, before) ==> exists|i: int|
            0 <= i < rows.len() && #[trigger] rows[i].0 == key
}

/// The view of an optional byte string.
pub open spec fn end_view(before: Option<Vec<u8>>) -> Option<Seq<u8>> {
    match before {
        Some(end) => Some(end@),
        None => None,
    }
}

/// `Map::<Vec<u8>, u64>::range` in ascending order with exclusive raw bounds,
/// collected: all entries whose key lies strictly between `after` and
/// `before` (or after `after`, without a `before`), in the bytewise order of
/// their keys. An error where one of these entries does not decode.
#[verifier::external_body]
pub(crate) fn score_range(
    store: &MemoryStorage,
    ns: &str,
    after: Vec<u8>,
    before: Option<Vec<u8>>,
) -> (r: Result<Vec<(Vec<u8>, u64)>, StdError>)
    requires
        namespace_fits(ns@),
    ensures
        r matches Ok(rows) ==> is_range(
            row_views(rows@),
            score_rows(*store, ns@),
            after@,
            end_view(before),
        ),
        r is Err ==> exists|key: Seq<u8>|
            within(key, after@, end_view(before)) && #[trigger] score_rows(
                *store,
                ns@,
            ).contains_pair(key, None),
{
    let min = Some(Bound::ExclusiveRaw(after));
    let max = match before {
        Some(end) => Some(Bound::ExclusiveRaw(end)),
        None => None,
    };
    cw_storage_plus::Map::<Vec<u8>, u64>::new(ns).range(store, min, max, Order::Ascending).collect()
}

} // verus!
