//! The interface between the hub and its controllers.

use vstd::prelude::*;
use crate::event::DeviceEvent;
use crate::resources::Res;

verus! {

/// What a controller answers when it is offered an event.
#[derive(Clone, Copy, Debug, PartialEq, Eq)]
pub enum ControlResult {
    /// The controller handled the event. Nobody else sees it.
    Consumed,
    /// The controller declined the event. It goes on to the next controller.
    Ignored,
    /// The controller has lost what it controlled and has to be removed.
    /// The event goes on to the next controller.
    ControlLost,
}

impl ControlResult {
    /// The event is still pending after this answer.
    pub open spec fn keeps_event(self) -> bool {
        !(self is Consumed)
    }

    /// The controller that gave this answer leaves the place it was registered in.
    pub open spec fn drops_controller(self) -> bool {
        self is ControlLost
    }

    /// Tells whether the event goes on to the next controller.
    pub fn passes_event(&self) -> (pass: bool)
        ensures
            pass == self.keeps_event(),
    {
        match self {
            ControlResult::Consumed => false,
            ControlResult::Ignored => true,
            ControlResult::ControlLost => true,
        }
    }

    /// Tells whether the controller that gave this answer has to be removed.
    pub fn releases_controller(&self) -> (gone: bool)
        ensures
            gone == self.drops_controller(),
    {
        match self {
            ControlResult::Consumed => false,
            ControlResult::Ignored => false,
            ControlResult::ControlLost => true,
        }
    }
}

/// A handler of device events.
///
/// The hub calls `control` with an event, the shared resources and the world.
/// The answer decides what the hub does next; see [`ControlResult`]. Nothing
/// is assumed about how an implementation comes to its answer.
pub trait InputController: Send + 'static {
    /// Offers `event` to the controller.
    fn control(&mut self, event: DeviceEvent, res: &mut Res, world: &mut hecs::World) -> ControlResult;
}

/// A controller as a hub holds it: behind the interface, whatever its type.
pub struct Installed {
    controller: Box<dyn InputController>,
}

/// `controller` as a hub holds it.
pub closed spec fn installed<C: InputController>(controller: C) -> Installed {
    Installed { controller: Box::new(controller) }
}

impl Installed {
    /// Wraps `controller` for a hub to hold.
    pub(crate) fn new<C: InputController>(controller: C) -> (held: Installed)
        ensures
            held == installed(controller),
    {
        Installed { controller: Box::new(controller) }
    }

    /// Offers `event` to the controller and returns its answer.
    pub(crate) fn offer(
        &mut self,
        event: DeviceEvent,
        res: &mut Res,
        world: &mut hecs::World,
    ) -> ControlResult {
        self.controller.control(event, res, world)
    }
}

} // verus!
