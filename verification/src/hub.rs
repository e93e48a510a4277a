//! The hub that routes device events to controllers.

use vstd::prelude::*;
use std::collections::HashMap;
use std::collections::hash_map::Entry;
use crate::controller::{installed, ControlResult, InputController, Installed};
use crate::event::{DeviceEvent, DeviceId, Event};
use crate::pool::{pool_capacity, pool_get_mut, pool_insert, pool_new, pool_remove, pool_slots};
use crate::resources::Res;
use crate::routing::{Answers, ControlView};

verus! {

/// The device already has a controller.
#[derive(Clone, Copy, Debug, PartialEq, Eq)]
pub struct DeviceUsed {
    /// The device that was to be bound.
    pub device_id: DeviceId,
}

/// Names a global controller of a hub by the slot it was put in.
///
/// It stays valid until that controller is removed; the slot may then be
/// given to a controller that is added later.
#[derive(Clone, Copy, Debug, PartialEq, Eq, Hash)]
pub struct GlobalControllerId {
    idx: usize,
}

impl View for GlobalControllerId {
    type V = usize;

    /// The slot.
    closed spec fn view(&self) -> usize {
        self.idx
    }
}

impl GlobalControllerId {
    /// The slot of the controller in the hub's pool of global controllers.
    pub fn slot(&self) -> (slot: usize)
        ensures
            slot == self@,
    {
        self.idx
    }
}

/// A collection of controllers, and the entry point for events.
pub struct Control {
    /// Controllers bound to one device each, by the number of the device.
    devices: HashMap<u64, Installed>,
    /// Controllers that see every event that no device controller consumed.
    global: slab::Slab<Installed>,
}

impl View for Control {
    type V = ControlView;

    closed spec fn view(&self) -> ControlView {
        ControlView {
            devices: Map::new(
                |id: DeviceId| self.devices@.contains_key(id.0),
                |id: DeviceId| self.devices@[id.0],
            ),
            global: pool_slots(self.global),
        }
    }
}

impl Control {
    /// A hub without controllers.
    pub fn new() -> (hub: Control)
        ensures
            hub@.devices == Map::<DeviceId, Installed>::empty(),
            hub@.global == Map::<usize, Installed>::empty(),
    {
        let hub = Control { devices: HashMap::new(), global: pool_new() };
        assert(hub@.devices =~= Map::<DeviceId, Installed>::empty());
        assert(hub@.global =~= Map::<usize, Installed>::empty());
        hub
    }

    /// Adds a global controller and returns the name of its slot.
    pub fn add_global_controller<C: InputController>(&mut self, controller: C) -> (id:
        GlobalControllerId)
        ensures
            !old(self)@.global.contains_key(id@),
            final(self)@.global == old(self)@.global.insert(id@, installed(controller)),
            final(self)@.devices == old(self)@.devices,
    {
        let idx = pool_insert(&mut self.global, Installed::new(controller));
        GlobalControllerId { idx }
    }

    /// Binds `controller` to the device `device_id`, unless the device has a
    /// controller already: a binding is never replaced.
    pub fn set_device_control<C: InputController>(
        &mut self,
        device_id: DeviceId,
        controller: C,
    ) -> (bound: Result<(), DeviceUsed>)
        ensures
            bound == if old(self)@.devices.contains_key(device_id) {
                Err::<(), DeviceUsed>(DeviceUsed { device_id })
            } else {
                Ok::<(), DeviceUsed>(())
            },
            final(self)@ == old(self)@.bind(device_id, installed(controller)),
    {
        match self.devices.entry(device_id.0) {
            Entry::Occupied(_) => {
                assert(self@.devices =~= old(self)@.devices);
                Err(DeviceUsed { device_id })
            },
            Entry::Vacant(entry) => {
                entry.insert(Installed::new(controller));
                assert(self@.devices =~= old(self)@.devices.insert(device_id, installed(controller)));
                Ok(())
            },
        }
    }

    /// Passes one event through the hub.
    ///
    /// An event that does not come from a device is returned as it is. An
    /// event from a device is offered to the controller bound to that device,
    /// if there is one, and then to the global controllers in ascending slot
    /// order, for as long as nobody has consumed it. A controller that answers
    /// that it lost control is removed; the event goes on all the same. The
    /// event is returned unless a controller consumed it.
    ///
    /// What the controllers answer is theirs to decide. Whatever they answer,
    /// the pass is the one that `ControlView::routed` describes for those
    /// answers.
    pub fn filter(&mut self, res: &mut Res, world: &mut hecs::World, event: Event) -> (out: Option<
        Event,
    >)
        ensures
            out is Some ==> out == Some(event),
            match event {
                Event::DeviceEvent { device_id, event: _ } => exists|answers: Answers|
                    {
                        &&& #[trigger] old(self)@.routed(device_id, answers, final(self)@)
                        &&& out is Some <==> answers.survives(old(self)@.global.dom())
                        &&& answers.silent() ==> *final(res) == *old(res) && *final(world) == *old(
                            world,
                        )
                    },
                _ => {
                    &&& out == Some(event)
                    &&& final(self)@ == old(self)@
                    &&& *final(res) == *old(res)
                    &&& *final(world) == *old(world)
                },
            },
    {
        match event {
            Event::DeviceEvent { device_id, event: device_event } => {
                let ghost slots = old(self)@.global.dom();
                let ghost mut answers = Answers { device: None, global: Map::empty() };
                let mut pending = match self.devices.entry(device_id.0) {
                    Entry::Occupied(mut occupied) => {
                        let answer = occupied.get_mut().offer(device_event, res, world);
                        proof {
                            answers = Answers { device: Some(answer), global: Map::empty() };
                        }
                        if answer.releases_controller() {
                            occupied.remove();
                        }
                        answer.passes_event()
                    },
                    Entry::Vacant(_) => true,
                };
                let ghost first = answers.device;
                let ghost bound = self@.devices;
                proof {
                    assert(bound.dom() =~= if first == Some(ControlResult::ControlLost) {
                        old(self)@.devices.dom().remove(device_id)
                    } else {
                        old(self)@.devices.dom()
                    });
                    assert(old(self)@.device_stage(device_id, first, bound));
                }
                let limit = pool_capacity(&self.global);
                let mut slot: usize = 0;
                while slot < limit && pending
                    invariant
                        slot <= limit,
                        slots == pool_slots(old(self).global).dom(),
                        forall|s: usize| #[trigger] slots.contains(s) ==> s < limit,
                        self@.devices == bound,
                        answers.device == first,
                        old(self)@.device_stage(device_id, first, bound),
                        pending == answers.reaches(slots, slot as int),
                        forall|s: usize| #[trigger]
                            answers.global.contains_key(s) ==> s < slot && slots.contains(s)
                                && answers.reaches(slots, s as int),
                        forall|s: usize| #[trigger]
                            slots.contains(s) && s < slot && answers.reaches(slots, s as int)
                                ==> answers.global.contains_key(s),
                        forall|s: usize| #[trigger]
                            pool_slots(self.global).contains_key(s) <==> slots.contains(s) && !(
                            answers.global.contains_key(s)
                                && answers.global[s].drops_controller()),
                        forall|s: usize| #[trigger]
                            slots.contains(s) && !answers.global.contains_key(s) ==> pool_slots(
                                self.global,
                            )[s] == pool_slots(old(self).global)[s],
                        answers.silent() ==> *res == *old(res) && *world == *old(world),
                    decreases limit - slot,
                {
                    let ghost asked = answers;
                    match pool_get_mut(&mut self.global, slot) {
                        Some(controller) => {
                            let answer = controller.offer(device_event, res, world);
                            proof {
                                answers = Answers {
                                    device: asked.device,
                                    global: asked.global.insert(slot, answer),
                                };
                                assert(answers.global.contains_key(slot));
                            }
                            if answer.releases_controller() {
                                pool_remove(&mut self.global, slot);
                            }
                            pending = answer.passes_event();
                        },
                        None => {},
                    }
                    proof {
                        assert forall|s: usize| s <= slot implies asked.reaches(slots, s as int)
                            == answers.reaches(slots, s as int) by {}
                    }
                    slot += 1;
                }
                proof {
                    assert(answers.walks(slots));
                    assert(old(self)@.routed(device_id, answers, self@));
                }
                if pending {
                    Some(Event::DeviceEvent { device_id, event: device_event })
                } else {
                    None
                }
            },
            _ => Some(event),
        }
    }
}

} // verus!
