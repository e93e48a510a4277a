use hecs::{Entity, World};
use input_control::{
    respond, AssumeControlError, CommandQueue, Control, ControlResult, Controlled, DeviceEvent,
    DeviceId, Event, EntityController, InputCommander, InputController, Res,
};

#[derive(Clone, Copy, Debug, PartialEq, Eq)]
enum Command {
    Jump,
    Fire,
    Turn(i64),
}

/// Space jumps, control fires, horizontal pointer motion turns.
struct Keys;

impl InputCommander for Keys {
    type Command = Command;

    fn translate(&mut self, event: DeviceEvent) -> Option<Command> {
        match event {
            DeviceEvent::Key { scancode: 57, pressed: true } => Some(Command::Jump),
            DeviceEvent::Key { scancode: 29, pressed: true } => Some(Command::Fire),
            DeviceEvent::MouseMotion { dx, .. } => Some(Command::Turn(dx)),
            _ => None,
        }
    }
}

/// Translates every event to the number of events it has seen before.
struct Counter {
    seen: u32,
}

impl InputCommander for Counter {
    type Command = u32;

    fn translate(&mut self, _event: DeviceEvent) -> Option<u32> {
        self.seen += 1;
        Some(self.seen - 1)
    }
}

fn press(scancode: u32) -> DeviceEvent {
    DeviceEvent::Key { scancode, pressed: true }
}

fn commands_of(world: &mut World, entity: Entity) -> Vec<Command> {
    world.query_one_mut::<&mut CommandQueue<Command>>(entity).unwrap().drain()
}

#[test]
fn taking_control_marks_the_entity_and_gives_it_an_empty_queue() {
    let mut world = World::new();
    let entity = world.spawn((0u8,));
    assert!(EntityController::assume_control(Keys, 4, entity, &mut world).is_ok());
    assert!(world.query_one_mut::<&Controlled>(entity).is_ok());
    let queue = world.query_one_mut::<&mut CommandQueue<Command>>(entity).unwrap();
    assert_eq!(queue.len(), 0);
    assert_eq!(queue.capacity(), 4);
    assert_eq!(*world.query_one_mut::<&u8>(entity).unwrap(), 0);
}

#[test]
fn second_request_for_control_is_refused() {
    let mut world = World::new();
    let entity = world.spawn(());
    assert!(EntityController::assume_control(Keys, 4, entity, &mut world).is_ok());
    match EntityController::assume_control(Keys, 4, entity, &mut world) {
        Err(refusal) => assert_eq!(refusal, AssumeControlError::AlreadyControlled { entity }),
        Ok(_) => panic!("control was granted twice"),
    }
}

#[test]
fn refused_request_leaves_the_queue_in_place() {
    let mut world = World::new();
    let entity = world.spawn(());
    let mut controller = EntityController::assume_control(Keys, 4, entity, &mut world).unwrap();
    let mut res = Res::new();
    assert_eq!(controller.control(press(57), &mut res, &mut world), ControlResult::Consumed);
    assert!(EntityController::assume_control(Keys, 1, entity, &mut world).is_err());
    let queue = world.query_one_mut::<&mut CommandQueue<Command>>(entity).unwrap();
    assert_eq!(queue.capacity(), 4);
    assert_eq!(queue.drain(), vec![Command::Jump]);
}

#[test]
fn control_over_a_missing_entity_is_refused() {
    let mut world = World::new();
    let entity = world.spawn(());
    world.despawn(entity).unwrap();
    match EntityController::assume_control(Keys, 4, entity, &mut world) {
        Err(refusal) => assert_eq!(refusal, AssumeControlError::NoSuchEntity { entity }),
        Ok(_) => panic!("control over a missing entity was granted"),
    }
}

#[test]
fn entities_are_controlled_independently() {
    let mut world = World::new();
    let first = world.spawn(());
    let second = world.spawn(());
    assert!(EntityController::assume_control(Keys, 2, first, &mut world).is_ok());
    assert!(EntityController::assume_control(Keys, 2, second, &mut world).is_ok());
    assert!(EntityController::assume_control(Keys, 2, first, &mut world).is_err());
}

#[test]
fn translated_event_is_consumed_and_queued() {
    let mut world = World::new();
    let entity = world.spawn(());
    let mut controller = EntityController::assume_control(Keys, 4, entity, &mut world).unwrap();
    let mut res = Res::new();
    assert_eq!(controller.control(press(57), &mut res, &mut world), ControlResult::Consumed);
    assert_eq!(
        controller.control(DeviceEvent::MouseMotion { dx: -8, dy: 2 }, &mut res, &mut world),
        ControlResult::Consumed
    );
    assert_eq!(commands_of(&mut world, entity), vec![Command::Jump, Command::Turn(-8)]);
}

#[test]
fn untranslated_event_is_ignored() {
    let mut world = World::new();
    let entity = world.spawn(());
    let mut controller = EntityController::assume_control(Keys, 4, entity, &mut world).unwrap();
    let mut res = Res::new();
    assert_eq!(controller.control(press(1), &mut res, &mut world), ControlResult::Ignored);
    assert_eq!(controller.control(DeviceEvent::Added, &mut res, &mut world), ControlResult::Ignored);
    assert_eq!(commands_of(&mut world, entity), Vec::<Command>::new());
}

#[test]
fn full_queue_of_the_entity_drops_its_oldest_command() {
    let mut world = World::new();
    let entity = world.spawn(());
    let mut controller = EntityController::assume_control(Keys, 2, entity, &mut world).unwrap();
    let mut res = Res::new();
    for event in [press(57), press(29), DeviceEvent::MouseMotion { dx: 5, dy: 0 }] {
        assert_eq!(controller.control(event, &mut res, &mut world), ControlResult::Consumed);
    }
    assert_eq!(commands_of(&mut world, entity), vec![Command::Fire, Command::Turn(5)]);
}

#[test]
fn controller_of_a_removed_entity_has_lost_control() {
    let mut world = World::new();
    let entity = world.spawn(());
    let mut controller = EntityController::assume_control(Keys, 2, entity, &mut world).unwrap();
    let mut res = Res::new();
    world.despawn(entity).unwrap();
    assert_eq!(controller.control(press(57), &mut res, &mut world), ControlResult::ControlLost);
    assert_eq!(controller.control(press(1), &mut res, &mut world), ControlResult::ControlLost);
}

#[test]
fn controller_of_an_entity_without_queue_has_lost_control() {
    let mut world = World::new();
    let entity = world.spawn(());
    let mut controller = EntityController::assume_control(Keys, 2, entity, &mut world).unwrap();
    let mut res = Res::new();
    assert!(world.remove_one::<CommandQueue<Command>>(entity).is_ok());
    assert_eq!(controller.control(press(57), &mut res, &mut world), ControlResult::ControlLost);
}

#[test]
fn hub_routes_device_events_to_the_entity() {
    let mut world = World::new();
    let entity = world.spawn(());
    let device_id = DeviceId(3);
    let mut hub = Control::new();
    let controller = EntityController::assume_control(Keys, 8, entity, &mut world).unwrap();
    assert_eq!(hub.set_device_control(device_id, controller), Ok(()));
    let mut res = Res::new();
    let jump = Event::DeviceEvent { device_id, event: press(57) };
    let other = Event::DeviceEvent { device_id, event: press(1) };
    let elsewhere = Event::DeviceEvent { device_id: DeviceId(4), event: press(57) };
    assert_eq!(hub.filter(&mut res, &mut world, jump), None);
    assert_eq!(hub.filter(&mut res, &mut world, other), Some(other));
    assert_eq!(hub.filter(&mut res, &mut world, elsewhere), Some(elsewhere));
    assert_eq!(commands_of(&mut world, entity), vec![Command::Jump]);
}

#[test]
fn hub_routes_unclaimed_events_to_a_global_entity_controller() {
    let mut world = World::new();
    let entity = world.spawn(());
    let mut hub = Control::new();
    let controller = EntityController::assume_control(Keys, 8, entity, &mut world).unwrap();
    hub.add_global_controller(controller);
    let mut res = Res::new();
    let fire = Event::DeviceEvent { device_id: DeviceId(1), event: press(29) };
    let jump = Event::DeviceEvent { device_id: DeviceId(2), event: press(57) };
    assert_eq!(hub.filter(&mut res, &mut world, fire), None);
    assert_eq!(hub.filter(&mut res, &mut world, jump), None);
    assert_eq!(commands_of(&mut world, entity), vec![Command::Fire, Command::Jump]);
}

#[test]
fn hub_unbinds_the_controller_of_a_removed_entity() {
    let mut world = World::new();
    let entity = world.spawn(());
    let device_id = DeviceId(3);
    let mut hub = Control::new();
    let controller = EntityController::assume_control(Keys, 8, entity, &mut world).unwrap();
    assert_eq!(hub.set_device_control(device_id, controller), Ok(()));
    let mut res = Res::new();
    let jump = Event::DeviceEvent { device_id, event: press(57) };
    assert_eq!(hub.filter(&mut res, &mut world, jump), None);
    world.despawn(entity).unwrap();
    // The controller reports the loss; the event is not consumed.
    assert_eq!(hub.filter(&mut res, &mut world, jump), Some(jump));
    // The binding is gone, so the device can be bound to a new entity.
    let successor = world.spawn(());
    let controller = EntityController::assume_control(Keys, 8, successor, &mut world).unwrap();
    assert_eq!(hub.set_device_control(device_id, controller), Ok(()));
    assert_eq!(hub.filter(&mut res, &mut world, jump), None);
    assert_eq!(commands_of(&mut world, successor), vec![Command::Jump]);
}

#[test]
fn without_a_queue_control_is_lost_and_the_commander_is_not_asked() {
    let mut commander = Counter { seen: 0 };
    assert_eq!(respond(&mut commander, None, press(57)), ControlResult::ControlLost);
    assert_eq!(respond(&mut commander, None, DeviceEvent::Added), ControlResult::ControlLost);
    assert_eq!(commander.seen, 0);
}

#[test]
fn with_a_queue_the_translation_decides() {
    let mut commander = Keys;
    let mut queue = CommandQueue::with_capacity(2);
    assert_eq!(respond(&mut commander, Some(&mut queue), press(1)), ControlResult::Ignored);
    assert_eq!(queue.len(), 0);
    assert_eq!(respond(&mut commander, Some(&mut queue), press(57)), ControlResult::Consumed);
    assert_eq!(respond(&mut commander, Some(&mut queue), press(29)), ControlResult::Consumed);
    assert_eq!(respond(&mut commander, Some(&mut queue), press(2)), ControlResult::Ignored);
    assert_eq!(respond(&mut commander, Some(&mut queue), press(57)), ControlResult::Consumed);
    assert_eq!(queue.drain(), vec![Command::Fire, Command::Jump]);
}

#[test]
fn commander_is_asked_once_for_each_event_that_finds_a_queue() {
    let mut world = World::new();
    let entity = world.spawn(());
    let mut controller =
        EntityController::assume_control(Counter { seen: 0 }, 3, entity, &mut world).unwrap();
    let mut res = Res::new();
    for _ in 0..5 {
        assert_eq!(controller.control(press(57), &mut res, &mut world), ControlResult::Consumed);
    }
    let queue = world.query_one_mut::<&mut CommandQueue<u32>>(entity).unwrap();
    assert_eq!(queue.drain(), vec![2, 3, 4]);
    world.despawn(entity).unwrap();
    assert_eq!(controller.control(press(57), &mut res, &mut world), ControlResult::ControlLost);
}
