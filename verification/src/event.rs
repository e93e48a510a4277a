//! Events and the devices they come from.

use vstd::prelude::*;

verus! {

/// Identifies one physical input device.
#[derive(Clone, Copy, Debug, PartialEq, Eq, Hash)]
pub struct DeviceId(pub u64);

/// One input occurrence on a device.
///
/// Analog values are carried as integers in the unit of the device.
#[derive(Clone, Copy, Debug, PartialEq, Eq)]
pub enum DeviceEvent {
    /// The device was plugged in.
    Added,
    /// The device was unplugged.
    Removed,
    /// Relative pointer motion.
    MouseMotion { dx: i64, dy: i64 },
    /// Wheel scroll.
    MouseWheel { dx: i64, dy: i64 },
    /// Motion along one axis of the device.
    Motion { axis: u32, value: i64 },
    /// A button went down or up.
    Button { button: u32, pressed: bool },
    /// A key went down or up.
    Key { scancode: u32, pressed: bool },
    /// Text input.
    Text { codepoint: char },
}

/// An event of the engine's main loop.
///
/// Only [`Event::DeviceEvent`] is of interest to controllers.
#[derive(Clone, Copy, Debug, PartialEq, Eq)]
pub enum Event {
    /// Input from a device.
    DeviceEvent { device_id: DeviceId, event: DeviceEvent },
    /// The window was resized.
    WindowResized { width: u32, height: u32 },
    /// The user asked to close the window.
    CloseRequested,
    /// The application was suspended.
    Suspended,
    /// The application was resumed.
    Resumed,
    /// All pending events of this iteration of the main loop were delivered.
    MainEventsCleared,
}

} // verus!
