//! Routing of input events to controllers.
//!
//! A [`Control`] hub receives the events of the main loop. An event that
//! comes from a device is first offered to the controller bound to that
//! device and then, unless that controller consumed it, to the global
//! controllers in ascending slot order. An [`EntityController`] is a
//! controller that turns device events into commands and stores them in a
//! bounded [`CommandQueue`] that lives on an entity of a `hecs::World`.

pub mod controller;
pub mod entity;
pub mod event;
pub mod hub;
pub mod pool;
pub mod queue;
pub mod resources;
pub mod routing;
pub mod world;

pub use crate::controller::{ControlResult, InputController, Installed};
pub use crate::entity::{
    deliver, respond, AssumeControlError, Controlled, EntityController, InputCommander,
};
pub use crate::event::{DeviceEvent, DeviceId, Event};
pub use crate::hub::{Control, DeviceUsed, GlobalControllerId};
pub use crate::queue::CommandQueue;
pub use crate::resources::Res;
pub use crate::routing::{Answers, ControlView};
