//! What one pass of an event through a hub amounts to.
//!
//! The hub cannot know what a controller will answer. Everything else about a
//! pass follows from the answers: who is asked, who is removed, and whether
//! the event comes out again. This file states that dependence.

use vstd::prelude::*;
use crate::controller::{ControlResult, Installed};
use crate::event::DeviceId;

verus! {

/// The controllers of a hub.
pub struct ControlView {
    /// The controller bound to each device that has one.
    pub devices: Map<DeviceId, Installed>,
    /// The global controllers, by slot.
    pub global: Map<usize, Installed>,
}

/// The answers that the controllers gave during one pass.
pub struct Answers {
    /// The answer of the controller bound to the event's device, or `None`
    /// where the device has no controller.
    pub device: Option<ControlResult>,
    /// The answer of each global controller that was offered the event, by slot.
    pub global: Map<usize, ControlResult>,
}

impl Answers {
    /// No controller was offered the event.
    pub open spec fn silent(self) -> bool {
        &&& self.device is None
        &&& forall|slot: usize| !self.global.contains_key(slot)
    }

    /// The event is still pending after the device's own controller, if any, saw it.
    pub open spec fn passes_device(self) -> bool {
        match self.device {
            Some(answer) => answer.keeps_event(),
            None => true,
        }
    }

    /// The event is still pending when the walk over the occupied `slots`
    /// arrives at `position`: it passed the device stage, and every occupied
    /// slot below `position` was offered it and did not consume it.
    pub open spec fn reaches(self, slots: Set<usize>, position: int) -> bool {
        &&& self.passes_device()
        &&& forall|lower: usize| #[trigger]
            slots.contains(lower) && lower < position ==> self.global.contains_key(lower)
                && self.global[lower].keeps_event()
    }

    /// The global answers are those of one walk over the occupied `slots` in
    /// ascending order: a slot was offered the event exactly if it is occupied
    /// and the event was still pending when the walk arrived there.
    pub open spec fn walks(self, slots: Set<usize>) -> bool {
        forall|slot: usize| #[trigger]
            self.global.contains_key(slot) <==> slots.contains(slot) && self.reaches(
                slots,
                slot as int,
            )
    }

    /// The event is still pending after the whole pass.
    pub open spec fn survives(self, slots: Set<usize>) -> bool {
        self.reaches(slots, usize::MAX + 1)
    }

    /// The global controller in `slot` was offered the event.
    pub open spec fn asked(self, slot: usize) -> bool {
        self.global.contains_key(slot)
    }

    /// The global controller in `slot` was offered the event and consumed it.
    pub open spec fn consumed_at(self, slot: usize) -> bool {
        self.global.contains_key(slot) && self.global[slot] is Consumed
    }
}

impl ControlView {
    /// The hub after a request to bind `controller` to `device_id`: a device
    /// that has a controller keeps it, and the request changes nothing.
    pub open spec fn bind(self, device_id: DeviceId, controller: Installed) -> ControlView {
        if self.devices.contains_key(device_id) {
            self
        } else {
            ControlView { devices: self.devices.insert(device_id, controller), global: self.global }
        }
    }

    /// The hub after one request for each of `controllers`, first to last,
    /// to bind it to `device_id`.
    pub open spec fn bind_all(self, device_id: DeviceId, controllers: Seq<Installed>) -> ControlView
        decreases controllers.len(),
    {
        if controllers.len() == 0 {
            self
        } else {
            self.bind(device_id, controllers[0]).bind_all(device_id, controllers.drop_first())
        }
    }

    /// The device stage of a pass: the controller bound to `device_id`, if
    /// there is one, gave `answer`, and the bindings are `after` afterwards.
    pub open spec fn device_stage(
        self,
        device_id: DeviceId,
        answer: Option<ControlResult>,
        after: Map<DeviceId, Installed>,
    ) -> bool {
        // The device's controller is asked exactly if there is one.
        &&& answer is Some <==> self.devices.contains_key(device_id)
        // The device's binding goes exactly if its controller lost control.
        &&& after.dom() == if answer == Some(ControlResult::ControlLost) {
            self.devices.dom().remove(device_id)
        } else {
            self.devices.dom()
        }
        // The controllers of other devices are not touched.
        &&& forall|other: DeviceId| #[trigger]
            self.devices.contains_key(other) && other != device_id ==> after[other]
                == self.devices[other]
    }

    /// The global stage of a pass, in which the controllers gave `answers`
    /// and the pool is `after` afterwards.
    pub open spec fn global_stage(self, answers: Answers, after: Map<usize, Installed>) -> bool {
        // The global controllers are asked in ascending slot order, while the event is pending.
        &&& answers.walks(self.global.dom())
        // A global controller goes exactly if it was asked and lost control.
        &&& forall|slot: usize| #[trigger]
            after.contains_key(slot) <==> self.global.contains_key(slot) && !(
            answers.global.contains_key(slot) && answers.global[slot].drops_controller())
        // The global controllers that were not asked are not touched.
        &&& forall|slot: usize| #[trigger]
            self.global.contains_key(slot) && !answers.global.contains_key(slot) ==> after[slot]
                == self.global[slot]
    }

    /// A pass of an event from `device_id` through the hub `self`, in which
    /// the controllers gave `answers`, leaves the hub as `after`.
    pub open spec fn routed(self, device_id: DeviceId, answers: Answers, after: ControlView) -> bool {
        &&& self.device_stage(device_id, answers.device, after.devices)
        &&& self.global_stage(answers, after.global)
    }
}

/// In a walk, a global controller is passed over only after a controller in a
/// lower slot consumed the event.
pub proof fn lemma_skipped_after_consumer(slots: Set<usize>, answers: Answers, slot: usize)
    requires
        answers.walks(slots),
        answers.passes_device(),
        slots.contains(slot),
        !answers.asked(slot),
    ensures
        exists|lower: usize| lower < slot && #[trigger] answers.consumed_at(lower),
    decreases slot,
{
    assert(!answers.reaches(slots, slot as int));
    let lower = choose|lower: usize| #[trigger]
        slots.contains(lower) && lower < slot && !(answers.global.contains_key(lower)
            && answers.global[lower].keeps_event());
    if answers.asked(lower) {
        assert(answers.consumed_at(lower));
    } else {
        lemma_skipped_after_consumer(slots, answers, lower);
        let below = choose|below: usize| below < lower && #[trigger] answers.consumed_at(below);
        assert(below < slot && answers.consumed_at(below));
    }
}

/// An event that is pending after the device stage is offered to the global
/// controllers in ascending slot order until one of them consumes it or none
/// is left: whoever is asked comes after everyone below, none of whom
/// consumed the event; nobody is passed over unless someone below consumed
/// it; and the event is pending in the end exactly if nobody consumed it.
pub proof fn lemma_pending_event_walks_pool(slots: Set<usize>, answers: Answers)
    requires
        answers.walks(slots),
        answers.passes_device(),
    ensures
        forall|slot: usize| #[trigger] answers.asked(slot) ==> slots.contains(slot),
        forall|slot: usize, lower: usize|
            #![trigger answers.asked(slot), slots.contains(lower)]
            answers.asked(slot) && slots.contains(lower) && lower < slot ==> answers.asked(lower)
                && !answers.consumed_at(lower),
        forall|slot: usize|
            #![trigger slots.contains(slot)]
            slots.contains(slot) && !answers.asked(slot) ==> exists|lower: usize|
                lower < slot && #[trigger] answers.consumed_at(lower),
        answers.survives(slots) <==> forall|slot: usize| !#[trigger] answers.consumed_at(slot),
{
    assert forall|slot: usize, lower: usize|
        #![trigger answers.asked(slot), slots.contains(lower)]
        answers.asked(slot) && slots.contains(lower) && lower < slot implies answers.asked(lower)
        && !answers.consumed_at(lower) by {
        assert(answers.reaches(slots, slot as int));
    }
    assert forall|slot: usize|
        #![trigger slots.contains(slot)]
        slots.contains(slot) && !answers.asked(slot) implies exists|lower: usize|
        lower < slot && #[trigger] answers.consumed_at(lower) by {
        lemma_skipped_after_consumer(slots, answers, slot);
    }
    if answers.survives(slots) {
        assert forall|slot: usize| !#[trigger] answers.consumed_at(slot) by {
            if answers.consumed_at(slot) {
                assert(answers.global.contains_key(slot));
                assert(slots.contains(slot));
            }
        }
    }
    if forall|slot: usize| !#[trigger] answers.consumed_at(slot) {
        assert forall|lower: usize| #[trigger] slots.contains(lower) implies answers.global.contains_key(
            lower,
        ) && answers.global[lower].keeps_event() by {
            if !answers.asked(lower) {
                lemma_skipped_after_consumer(slots, answers, lower);
            }
            assert(!answers.consumed_at(lower));
        }
        assert(answers.survives(slots));
    }
}

/// When the controller bound to the device consumes the event, no global
/// controller is offered it, the event does not come out, and the hub keeps
/// all its controllers.
pub proof fn lemma_consumed_by_device_ends_pass(
    before: ControlView,
    device_id: DeviceId,
    answers: Answers,
    after: ControlView,
)
    requires
        before.routed(device_id, answers, after),
        answers.device == Some(ControlResult::Consumed),
    ensures
        forall|slot: usize| !#[trigger] answers.asked(slot),
        !answers.survives(before.global.dom()),
        after.global == before.global,
        after.devices.dom() == before.devices.dom(),
{
    assert forall|slot: usize| !#[trigger] answers.asked(slot) by {
        assert(!answers.reaches(before.global.dom(), slot as int));
    }
    assert(after.global =~= before.global);
}

/// When the controller bound to the device ignores the event, the binding
/// stays, and the global controllers are offered the event in ascending slot
/// order until one of them consumes it or none is left.
pub proof fn lemma_ignored_by_device_walks_pool(
    before: ControlView,
    device_id: DeviceId,
    answers: Answers,
    after: ControlView,
)
    requires
        before.routed(device_id, answers, after),
        answers.device == Some(ControlResult::Ignored),
    ensures
        after.devices.dom() == before.devices.dom(),
        forall|slot: usize| #[trigger] answers.asked(slot) ==> before.global.contains_key(slot),
        forall|slot: usize, lower: usize|
            #![trigger answers.asked(slot), before.global.contains_key(lower)]
            answers.asked(slot) && before.global.contains_key(lower) && lower < slot
                ==> answers.asked(lower) && !answers.consumed_at(lower),
        forall|slot: usize|
            #![trigger before.global.contains_key(slot)]
            before.global.contains_key(slot) && !answers.asked(slot) ==> exists|lower: usize|
                lower < slot && #[trigger] answers.consumed_at(lower),
        answers.survives(before.global.dom()) <==> forall|slot: usize| !#[trigger]
            answers.consumed_at(slot),
{
    lemma_pending_event_walks_pool(before.global.dom(), answers);
}

/// When the controller bound to the device has lost control, its binding is
/// removed, and the event is offered to the global controllers all the same,
/// as if that controller had ignored it.
pub proof fn lemma_control_lost_by_device_still_walks_pool(
    before: ControlView,
    device_id: DeviceId,
    answers: Answers,
    after: ControlView,
)
    requires
        before.routed(device_id, answers, after),
        answers.device == Some(ControlResult::ControlLost),
    ensures
        before.devices.contains_key(device_id),
        after.devices == before.devices.remove(device_id),
        forall|slot: usize| #[trigger] answers.asked(slot) ==> before.global.contains_key(slot),
        forall|slot: usize, lower: usize|
            #![trigger answers.asked(slot), before.global.contains_key(lower)]
            answers.asked(slot) && before.global.contains_key(lower) && lower < slot
                ==> answers.asked(lower) && !answers.consumed_at(lower),
        forall|slot: usize|
            #![trigger before.global.contains_key(slot)]
            before.global.contains_key(slot) && !answers.asked(slot) ==> exists|lower: usize|
                lower < slot && #[trigger] answers.consumed_at(lower),
        answers.survives(before.global.dom()) <==> forall|slot: usize| !#[trigger]
            answers.consumed_at(slot),
{
    lemma_pending_event_walks_pool(before.global.dom(), answers);
    assert(after.devices =~= before.devices.remove(device_id));
}

/// Of any number of requests to bind a controller to one device, only the
/// first can succeed: every later request finds the device bound, and the hub
/// is left as the first request left it.
pub proof fn lemma_only_first_binding_succeeds(
    hub: ControlView,
    device_id: DeviceId,
    controllers: Seq<Installed>,
)
    requires
        controllers.len() > 0,
    ensures
        hub.bind_all(device_id, controllers) == hub.bind(device_id, controllers[0]),
        hub.bind_all(device_id, controllers).devices.contains_key(device_id),
        !hub.devices.contains_key(device_id) ==> hub.bind_all(
            device_id,
            controllers,
        ).devices[device_id] == controllers[0],
        forall|count: int|
            0 < count <= controllers.len() ==> #[trigger] hub.bind_all(
                device_id,
                controllers.take(count),
            ).devices.contains_key(device_id),
    decreases controllers.len(),
{
    let first = hub.bind(device_id, controllers[0]);
    let rest = controllers.drop_first();
    if rest.len() > 0 {
        lemma_only_first_binding_succeeds(first, device_id, rest);
        assert(first.bind(device_id, rest[0]) == first);
    } else {
        assert(first.bind_all(device_id, rest) == first);
    }
    assert forall|count: int| 0 < count <= controllers.len() implies #[trigger] hub.bind_all(
        device_id,
        controllers.take(count),
    ).devices.contains_key(device_id) by {
        let some = controllers.take(count);
        if count < controllers.len() {
            lemma_only_first_binding_succeeds(hub, device_id, some);
        } else {
            assert(some =~= controllers);
            assert(hub.bind_all(device_id, controllers) == first);
        }
    }
}

} // verus!
