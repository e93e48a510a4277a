//! Controllers that drive one entity.

use vstd::prelude::*;
use crate::controller::{ControlResult, InputController};
use crate::event::DeviceEvent;
use crate::queue::{enqueued, CommandQueue};
use crate::resources::Res;
use crate::world::{
    attach_queue, has_marker, queue_mut, world_controlled, world_entities, world_queued,
};

verus! {

/// Translates device events into the commands of one kind of entity.
pub trait InputCommander {
    /// The commands this commander produces.
    type Command;

    /// The command that `event` stands for, if it stands for one.
    fn translate(&mut self, event: DeviceEvent) -> Option<Self::Command>;
}

/// Why an entity could not be taken under control.
#[derive(Clone, Copy, Debug, PartialEq, Eq)]
pub enum AssumeControlError {
    /// The entity does not exist.
    NoSuchEntity { entity: hecs::Entity },
    /// The entity is controlled already.
    AlreadyControlled { entity: hecs::Entity },
}

/// Marks an entity as controlled. Only this crate can make one.
pub struct Controlled {
    marker: (),
}

/// What a request for control over `entity` in `world` comes to: it is
/// refused for an entity that is controlled already, and for one that does
/// not exist.
pub open spec fn control_request(world: hecs::World, entity: hecs::Entity) -> Result<
    (),
    AssumeControlError,
> {
    if world_controlled(world).contains(entity) {
        Err(AssumeControlError::AlreadyControlled { entity })
    } else if !world_entities(world).contains(entity) {
        Err(AssumeControlError::NoSuchEntity { entity })
    } else {
        Ok(())
    }
}

/// Once control over an entity was granted, a second request for it is
/// refused for as long as the entity carries the marker that the first
/// request put on it.
pub proof fn lemma_second_request_refused(
    before: hecs::World,
    after: hecs::World,
    entity: hecs::Entity,
)
    requires
        control_request(before, entity) is Ok,
        world_controlled(after) == world_controlled(before).insert(entity),
    ensures
        control_request(after, entity) == Err::<(), AssumeControlError>(
            AssumeControlError::AlreadyControlled { entity },
        ),
{
}

/// Puts a translated command, if there is one, in the queue of the entity,
/// and tells what the controller answers to the event it came from: a
/// command consumes the event, no command leaves it to others.
pub fn deliver<C>(queue: &mut CommandQueue<C>, command: Option<C>) -> (answer: ControlResult)
    ensures
        final(queue).limit() == old(queue).limit(),
        match command {
            Some(command) => {
                &&& answer is Consumed
                &&& final(queue)@ == enqueued(old(queue)@, old(queue).limit(), command)
            },
            None => {
                &&& answer is Ignored
                &&& final(queue)@ == old(queue)@
            },
        },
{
    match command {
        None => ControlResult::Ignored,
        Some(command) => {
            queue.enqueue(command);
            ControlResult::Consumed
        },
    }
}

/// What a controller answers to `event` once it has looked for the queue of
/// its entity and `found` is what came of that.
///
/// Without a queue the controller has lost control, and the commander is not
/// asked. With a queue the commander translates the event, and the answer and
/// the queue are what [`deliver`] makes of the translation: the answer is never
/// `ControlLost` then; an ignored event leaves the queue as it was, and a
/// consumed one has put a command in it.
pub fn respond<T: InputCommander>(
    commander: &mut T,
    found: Option<&mut CommandQueue<T::Command>>,
    event: DeviceEvent,
) -> (answer: ControlResult)
    ensures
        answer is ControlLost <==> found is None,
        found is None ==> *final(commander) == *old(commander),
        match found {
            Some(queue) => {
                &&& final(queue).limit() == queue.limit()
                &&& answer is Ignored ==> final(queue)@ == queue@
                &&& answer is Consumed ==> exists|command: T::Command|
                    final(queue)@ == #[trigger] enqueued(queue@, queue.limit(), command)
            },
            None => true,
        },
{
    match found {
        Some(queue) => deliver(queue, commander.translate(event)),
        None => ControlResult::ControlLost,
    }
}

/// A controller that translates device events into commands and sends them
/// to the command queue of one entity.
pub struct EntityController<T> {
    commander: T,
    entity: hecs::Entity,
}

impl<T> EntityController<T> where T: InputCommander, T::Command: Send + Sync + 'static {
    /// The entity that this controller drives.
    pub closed spec fn target(&self) -> hecs::Entity {
        self.entity
    }

    /// The commander that translates for this controller.
    pub closed spec fn commander(&self) -> T {
        self.commander
    }

    /// Takes `entity` under control: puts the marker and an empty queue with
    /// room for `queue_cap` commands on it, and returns the controller that
    /// fills the queue. The controller still has to be given to a hub.
    ///
    /// An entity that is controlled already, or that does not exist, is
    /// refused, and the world stays as it was.
    pub fn assume_control(
        commander: T,
        queue_cap: usize,
        entity: hecs::Entity,
        world: &mut hecs::World,
    ) -> (taken: Result<Self, AssumeControlError>)
        ensures
            match taken {
                Ok(controller) => {
                    &&& control_request(*old(world), entity) is Ok
                    &&& controller.target() == entity
                    &&& controller.commander() == commander
                    &&& world_controlled(*final(world)) == world_controlled(*old(world)).insert(
                        entity,
                    )
                    &&& world_queued(*final(world)) == world_queued(*old(world)).insert(entity)
                },
                Err(refusal) => {
                    &&& control_request(*old(world), entity) == Err::<(), AssumeControlError>(
                        refusal,
                    )
                    &&& world_controlled(*final(world)) == world_controlled(*old(world))
                    &&& world_queued(*final(world)) == world_queued(*old(world))
                },
            },
            world_entities(*final(world)) == world_entities(*old(world)),
    {
        match has_marker(world, entity) {
            true => Err(AssumeControlError::AlreadyControlled { entity }),
            false => {
                let queue = CommandQueue::<T::Command>::with_capacity(queue_cap);
                match attach_queue(world, entity, Controlled { marker: () }, queue) {
                    Ok(()) => Ok(EntityController { commander, entity }),
                    Err(_) => Err(AssumeControlError::NoSuchEntity { entity }),
                }
            },
        }
    }
}

impl<T> InputController for EntityController<T> where
    T: InputCommander + Send + 'static,
    T::Command: Send + Sync + 'static,
 {
    /// Translates `event` and puts the command in the queue of the entity.
    ///
    /// The controller looks for the queue of its entity in the world and
    /// answers as [`respond`] says for what it found: `ControlLost` without a
    /// queue, else `Consumed` or `Ignored` as the commander translates.
    ///
    /// Whether the entity carries a queue for the commands of this very
    /// commander is for the world to say. The contract knows of it only that
    /// an entity that is gone, or that carries no queue at all, has none.
    fn control(&mut self, event: DeviceEvent, res: &mut Res, world: &mut hecs::World) -> (answer:
        ControlResult)
        ensures
            final(self).target() == old(self).target(),
            !world_entities(*old(world)).contains(old(self).target()) ==> answer is ControlLost,
            !world_queued(*old(world)).contains(old(self).target()) ==> answer is ControlLost,
            answer is ControlLost ==> final(self).commander() == old(self).commander(),
            world_entities(*final(world)) == world_entities(*old(world)),
            world_controlled(*final(world)) == world_controlled(*old(world)),
            world_queued(*final(world)) == world_queued(*old(world)),
            *final(res) == *old(res),
    {
        respond(&mut self.commander, queue_mut::<T::Command>(world, self.entity), event)
    }
}

} // verus!
