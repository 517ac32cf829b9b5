//! Fresh identifiers for new song items.
use vstd::prelude::*;
use crate::domain::ItemId;

verus! {

/// An identifier as `new_item_id` gives them: a version 4 UUID, with the version
/// nibble 4 and the RFC 4122 variant bits `10`.
pub open spec fn is_fresh_id(id: ItemId) -> bool {
    id & 0xF000C000000000000000u128 == 0x40008000000000000000u128
}

/// A fresh random identifier: the 128 bits of `uuid::Uuid::new_v4()`, as given by
/// `Uuid::as_u128`.
///
/// The value is random, so nothing is promised of it beyond what the source of
/// `new_v4` sets in every outcome: the version nibble 4 and the RFC 4122 variant
/// bits `10`.
#[verifier::external_body]
pub(crate) fn new_item_id() -> (r: ItemId)
    ensures
        is_fresh_id(r),
{
    uuid::Uuid::new_v4().as_u128()
}

/// Whether every identifier is as `new_item_id` gives them.
pub open spec fn all_fresh(ids: Seq<ItemId>) -> bool {
    forall|k: int| 0 <= k < ids.len() ==> is_fresh_id(#[trigger] ids[k])
}

/// As many fresh identifiers as asked for.
pub(crate) fn new_item_ids(n: usize) -> (r: Vec<ItemId>)
    ensures
        r@.len() == n,
        all_fresh(r@),
{
    let mut out: Vec<ItemId> = Vec::new();
    let mut i: usize = 0;
    while i < n
        invariant
            i <= n,
            out@.len() == i,
            all_fresh(out@),
        decreases n - i,
    {
        out.push(new_item_id());
        i = i + 1;
    }
    out
}

} // verus!
