//! What this crate relies on from `slab`.
//!
//! The global controllers live in a `slab::Slab`, which is opaque to the
//! verifier. The contracts below speak of it through [`pool_slots`], the map
//! from each occupied slot to the controller in it. Nothing in this file is
//! proved; each contract restates what the `slab` function it belongs to does.

use vstd::prelude::*;
use crate::controller::Installed;

verus! {

/// `slab::Slab`, of which the verifier sees nothing but [`pool_slots`].
#[verifier::external_type_specification]
#[verifier::external_body]
#[verifier::reject_recursive_types(T)]
pub struct ExSlab<T>(slab::Slab<T>);

/// The occupied slots of `pool`, each with the controller it holds.
pub uninterp spec fn pool_slots(pool: slab::Slab<Installed>) -> Map<usize, Installed>;

/// `Slab::new`: a pool without any occupied slot.
#[verifier::external_body]
pub(crate) fn pool_new() -> (pool: slab::Slab<Installed>)
    ensures
        pool_slots(pool).dom() == Set::<usize>::empty(),
{
    slab::Slab::new()
}

/// `Slab::insert`: stores `controller` in a slot that was vacant and returns
/// that slot. The other slots stay as they were.
///
/// Running out of memory is not modelled.
#[verifier::external_body]
pub(crate) fn pool_insert(
    pool: &mut slab::Slab<Installed>,
    controller: Installed,
) -> (slot: usize)
    ensures
        !pool_slots(*old(pool)).contains_key(slot),
        pool_slots(*final(pool)) == pool_slots(*old(pool)).insert(slot, controller),
{
    pool.insert(controller)
}

/// `Slab::capacity`: the number of slots the pool has allocated. How many
/// that are is up to the allocator, but every occupied slot lies below it.
#[verifier::external_body]
pub(crate) fn pool_capacity(pool: &slab::Slab<Installed>) -> (capacity: usize)
    ensures
        forall|slot: usize| #[trigger] pool_slots(*pool).contains_key(slot) ==> slot < capacity,
{
    pool.capacity()
}

/// `Slab::get_mut`: the controller in `slot`, if the slot is occupied.
///
/// What the caller leaves behind in the borrowed place is what the slot holds
/// afterwards. The other slots stay as they were.
#[verifier::external_body]
pub(crate) fn pool_get_mut(pool: &mut slab::Slab<Installed>, slot: usize) -> (found:
    Option<&mut Installed>)
    ensures
        match found {
            Some(controller) => {
                &&& pool_slots(*old(pool)).contains_key(slot)
                &&& *controller == pool_slots(*old(pool))[slot]
                &&& pool_slots(*final(pool)) == pool_slots(*old(pool)).insert(
                    slot,
                    *final(controller),
                )
            },
            None => {
                &&& !pool_slots(*old(pool)).contains_key(slot)
                &&& pool_slots(*final(pool)) == pool_slots(*old(pool))
            },
        },
{
    pool.get_mut(slot)
}

/// `Slab::remove`: takes the controller out of `slot`, which must be
/// occupied. The other slots stay as they were.
#[verifier::external_body]
pub(crate) fn pool_remove(pool: &mut slab::Slab<Installed>, slot: usize) -> (removed:
    Installed)
    requires
        pool_slots(*old(pool)).contains_key(slot),
    ensures
        removed == pool_slots(*old(pool))[slot],
        pool_slots(*final(pool)) == pool_slots(*old(pool)).remove(slot),
{
    pool.remove(slot)
}

} // verus!
