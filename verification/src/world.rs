//! What this crate relies on from `hecs`.
//!
//! A `hecs::World` is opaque to the verifier. The contracts below speak of it
//! through three sets: the entities that exist in it, those that carry the
//! [`Controlled`] marker and those that carry a command queue. Nothing in this file is proved; each contract
//! restates what the `hecs` function it belongs to does.

use vstd::prelude::*;
use crate::entity::Controlled;
use crate::queue::CommandQueue;

verus! {

/// `hecs::World`, of which the verifier sees nothing but the sets below.
#[verifier::external_type_specification]
#[verifier::external_body]
pub struct ExWorld(hecs::World);

/// `hecs::Entity`, a handle that is only passed along and compared.
#[verifier::external_type_specification]
#[verifier::external_body]
pub struct ExEntity(hecs::Entity);

/// `hecs::NoSuchEntity`, the error of `World::insert`.
#[verifier::external_type_specification]
#[verifier::external_body]
pub struct ExNoSuchEntity(hecs::NoSuchEntity);

/// The entities that exist in `world`: those for which `World::contains` holds.
pub uninterp spec fn world_entities(world: hecs::World) -> Set<hecs::Entity>;

/// The entities of `world` that carry a [`Controlled`] component.
pub uninterp spec fn world_controlled(world: hecs::World) -> Set<hecs::Entity>;

/// The entities of `world` that carry a command queue, whatever the commands
/// in it are.
pub uninterp spec fn world_queued(world: hecs::World) -> Set<hecs::Entity>;

/// `World::query_one_mut::<&Controlled>`, reduced to whether it found the marker.
///
/// The query succeeds exactly for an entity that carries the marker, and it
/// neither adds nor removes entities, markers or queues.
#[verifier::external_body]
pub(crate) fn has_marker(world: &mut hecs::World, entity: hecs::Entity) -> (found: bool)
    ensures
        found == world_controlled(*old(world)).contains(entity),
        world_entities(*final(world)) == world_entities(*old(world)),
        world_controlled(*final(world)) == world_controlled(*old(world)),
        world_queued(*final(world)) == world_queued(*old(world)),
{
    world.query_one_mut::<&Controlled>(entity).is_ok()
}

/// `World::insert` with the marker and a command queue as the bundle.
///
/// It fails exactly for an entity that does not exist, and then changes
/// none of the sets. Otherwise the entity carries the marker and a queue
/// afterwards, and no other entity gains or loses either.
#[verifier::external_body]
pub(crate) fn attach_queue<C: Send + Sync + 'static>(
    world: &mut hecs::World,
    entity: hecs::Entity,
    marker: Controlled,
    queue: CommandQueue<C>,
) -> (attached: Result<(), hecs::NoSuchEntity>)
    ensures
        attached is Ok <==> world_entities(*old(world)).contains(entity),
        world_entities(*final(world)) == world_entities(*old(world)),
        world_controlled(*final(world)) == if attached is Ok {
            world_controlled(*old(world)).insert(entity)
        } else {
            world_controlled(*old(world))
        },
        world_queued(*final(world)) == if attached is Ok {
            world_queued(*old(world)).insert(entity)
        } else {
            world_queued(*old(world))
        },
{
    world.insert(entity, (marker, queue))
}

/// `World::query_one_mut::<&mut CommandQueue<C>>`, with the error dropped.
///
/// A queue is found only on an entity that exists and carries a queue; for
/// the commands `C` it is found on, the sets do not say. Whatever the caller
/// does to the queue, no entity, marker or queue comes or goes.
#[verifier::external_body]
pub(crate) fn queue_mut<C: Send + Sync + 'static>(world: &mut hecs::World, entity: hecs::Entity) -> (found:
    Option<&mut CommandQueue<C>>)
    ensures
        found is Some ==> world_entities(*old(world)).contains(entity),
        found is Some ==> world_queued(*old(world)).contains(entity),
        world_entities(*final(world)) == world_entities(*old(world)),
        world_controlled(*final(world)) == world_controlled(*old(world)),
        world_queued(*final(world)) == world_queued(*old(world)),
{
    world.query_one_mut::<&mut CommandQueue<C>>(entity).ok()
}

} // verus!
