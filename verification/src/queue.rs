//! Bounded queues of commands.

use vstd::prelude::*;
use std::collections::VecDeque;

verus! {

/// The last `count` items of `items`, or all of them where there are fewer.
pub open spec fn newest<T>(items: Seq<T>, count: nat) -> Seq<T> {
    if items.len() <= count {
        items
    } else {
        items.subrange(items.len() - count, items.len() as int)
    }
}

/// What a queue with room for `capacity` commands holds after `command` arrived:
/// the command goes to the back, and the oldest one leaves where there is no room.
pub open spec fn enqueued<T>(queue: Seq<T>, capacity: nat, command: T) -> Seq<T> {
    newest(queue.push(command), capacity)
}

/// What a queue holds after `commands` arrived one by one, first to last.
pub open spec fn enqueued_all<T>(queue: Seq<T>, capacity: nat, commands: Seq<T>) -> Seq<T>
    decreases commands.len(),
{
    if commands.len() == 0 {
        queue
    } else {
        enqueued_all(enqueued(queue, capacity, commands[0]), capacity, commands.drop_first())
    }
}

/// A queue never holds more than its capacity, whatever arrives.
pub proof fn lemma_enqueued_within_capacity<T>(queue: Seq<T>, capacity: nat, command: T)
    requires
        queue.len() <= capacity,
    ensures
        enqueued(queue, capacity, command).len() <= capacity,
        enqueued(queue, capacity, command).len() == if queue.len() < capacity {
            queue.len() + 1
        } else {
            capacity
        },
{
}

/// After any number of arrivals a queue holds the newest commands, as many as
/// it has room for, in the order in which they arrived.
pub proof fn lemma_queue_keeps_newest<T>(queue: Seq<T>, capacity: nat, commands: Seq<T>)
    requires
        queue.len() <= capacity,
    ensures
        enqueued_all(queue, capacity, commands) == newest(queue + commands, capacity),
    decreases commands.len(),
{
    if commands.len() == 0 {
        assert(queue + commands =~= queue);
    } else {
        let next = enqueued(queue, capacity, commands[0]);
        let rest = commands.drop_first();
        lemma_queue_keeps_newest(next, capacity, rest);
        assert(newest(next + rest, capacity) =~= newest(queue + commands, capacity));
    }
}

/// A queue with room for `capacity` commands that receives one command more
/// than that holds all but the first of them, in the order of arrival.
pub proof fn lemma_one_too_many_evicts_oldest<T>(capacity: nat, commands: Seq<T>)
    requires
        commands.len() == capacity + 1,
    ensures
        enqueued_all(Seq::<T>::empty(), capacity, commands) == commands.subrange(
            1,
            commands.len() as int,
        ),
        enqueued_all(Seq::<T>::empty(), capacity, commands).len() == capacity,
{
    lemma_queue_keeps_newest(Seq::<T>::empty(), capacity, commands);
    assert(Seq::<T>::empty() + commands =~= commands);
}

/// A queue of commands with a fixed capacity.
///
/// It is meant to live on a controlled entity as a component. When a command
/// arrives at a full queue, the oldest command is dropped to make room.
pub struct CommandQueue<T> {
    commands: VecDeque<T>,
    capacity: usize,
}

impl<T> View for CommandQueue<T> {
    type V = Seq<T>;

    /// The commands in the queue, oldest first.
    closed spec fn view(&self) -> Seq<T> {
        self.commands@
    }
}

impl<T> CommandQueue<T> {
    #[verifier::type_invariant]
    spec fn within_capacity(self) -> bool {
        self.commands@.len() <= self.capacity
    }

    /// The number of commands the queue has room for.
    pub closed spec fn limit(&self) -> nat {
        self.capacity as nat
    }

    /// An empty queue with room for `capacity` commands.
    pub fn with_capacity(capacity: usize) -> (queue: Self)
        ensures
            queue@ == Seq::<T>::empty(),
            queue.limit() == capacity,
    {
        CommandQueue { commands: VecDeque::with_capacity(capacity), capacity }
    }

    /// The number of commands the queue has room for.
    pub fn capacity(&self) -> (capacity: usize)
        ensures
            capacity == self.limit(),
    {
        self.capacity
    }

    /// The number of commands in the queue.
    pub fn len(&self) -> (len: usize)
        ensures
            len == self@.len(),
            len <= self.limit(),
    {
        proof {
            use_type_invariant(self);
        }
        self.commands.len()
    }

    /// Puts `command` at the back of the queue. A full queue drops its oldest
    /// command first; a queue without any room drops `command` itself.
    pub fn enqueue(&mut self, command: T)
        ensures
            final(self).limit() == old(self).limit(),
            final(self)@ == enqueued(old(self)@, old(self).limit(), command),
    {
        proof {
            use_type_invariant(&*self);
        }
        let mut commands: VecDeque<T> = VecDeque::new();
        core::mem::swap(&mut self.commands, &mut commands);
        if commands.len() == self.capacity {
            commands.pop_front();
        }
        if self.capacity > 0 {
            commands.push_back(command);
        }
        assert(commands@ =~= enqueued(old(self).commands@, old(self).capacity as nat, command));
        core::mem::swap(&mut self.commands, &mut commands);
    }

    /// Takes all commands out of the queue, oldest first.
    pub fn drain(&mut self) -> (commands: Vec<T>)
        ensures
            commands@ == old(self)@,
            final(self)@ == Seq::<T>::empty(),
            final(self).limit() == old(self).limit(),
    {
        let mut waiting: VecDeque<T> = VecDeque::new();
        core::mem::swap(&mut self.commands, &mut waiting);
        let mut commands: Vec<T> = Vec::new();
        loop
            invariant
                commands@ + waiting@ == old(self).commands@,
            ensures
                commands@ == old(self).commands@,
            decreases waiting@.len(),
        {
            let ghost before = waiting@;
            let ghost taken = commands@;
            match waiting.pop_front() {
                Some(command) => {
                    commands.push(command);
                    assert(commands@ + waiting@ =~= taken + before);
                },
                None => {
                    assert(commands@ + waiting@ =~= commands@);
                    break ;
                },
            }
        }
        commands
    }
}

} // verus!
