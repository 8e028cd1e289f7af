//! The command side: requests the loop controller hands to the async worker,
//! and the bounded FIFO queue that carries them. The queue never drops or
//! reorders a command; when it is full the producer is refused and must wait
//! for the consumer to advance (backpressure) rather than lose the command.

use vstd::prelude::*;

verus! {

/// A request for the async worker to perform blocking or slow work whose
/// result is reflected back into the application state.
#[derive(Debug, Clone, Copy, PartialEq, Eq, Structural)]
pub enum IoEvent {
    /// Warm the application up, then enter the initialized phase.
    Initialize,
    /// Suspend the worker for this many seconds, then count the sleep.
    Sleep(u64),
    /// Run the auth collaborator's exchange; store the token on success.
    Login,
}

/// Bounded FIFO queue of commands, the loop controller its sole producer and
/// the async worker its sole consumer.
#[derive(Debug)]
pub struct CommandQueue {
    pub items: Vec<IoEvent>,
    pub capacity: usize,
}

impl CommandQueue {
    /// An empty queue that accepts up to `capacity` pending commands.
    pub fn new(capacity: usize) -> (r: Self)
        ensures
            r.items@ == Seq::<IoEvent>::empty(),
            r.capacity == capacity,
    {
        CommandQueue { items: Vec::new(), capacity }
    }

    /// How many commands are pending.
    pub fn len(&self) -> (r: usize)
        ensures
            r == self.items@.len(),
    {
        self.items.len()
    }

    /// Appends `cmd` behind every pending command, unless the queue is at
    /// capacity; a refused command is not stored, and the caller suspends
    /// until the consumer has advanced rather than drop or reorder it.
    pub fn enqueue(&mut self, cmd: IoEvent) -> (accepted: bool)
        ensures
            final(self).capacity == old(self).capacity,
            old(self).items@.len() < old(self).capacity ==> accepted
                && final(self).items@ == old(self).items@.push(cmd),
            old(self).items@.len() >= old(self).capacity ==> !accepted
                && final(self).items@ == old(self).items@,
    {
        if self.items.len() < self.capacity {
            self.items.push(cmd);
            true
        } else {
            false
        }
    }

    /// Takes the oldest pending command, or nothing from an empty queue.
    pub fn dequeue(&mut self) -> (r: Option<IoEvent>)
        ensures
            final(self).capacity == old(self).capacity,
            old(self).items@.len() == 0 ==> r is None
                && final(self).items@ == old(self).items@,
            old(self).items@.len() > 0 ==> r == Some(old(self).items@[0])
                && final(self).items@ == old(self).items@.drop_first(),
    {
        if self.items.len() == 0 {
            None
        } else {
            let front = self.items.remove(0);
            proof {
                assert(final(self).items@ =~= old(self).items@.drop_first());
            }
            Some(front)
        }
    }
}

/// The stream of commands a consumer observes during one producer-consumer
/// session over a queue of capacity `cap` that currently holds `queue`:
/// while space is free the producer enqueues the next pending command; when
/// the queue is full, or nothing is left to enqueue, the consumer takes the
/// front.
pub open spec fn session_observed(pending: Seq<IoEvent>, queue: Seq<IoEvent>, cap: nat)
    -> Seq<IoEvent>
    decreases 2 * pending.len() + queue.len(),
{
    if pending.len() > 0 && queue.len() < cap {
        session_observed(pending.drop_first(), queue.push(pending[0]), cap)
    } else if queue.len() > 0 {
        seq![queue[0]] + session_observed(pending, queue.drop_first(), cap)
    } else {
        Seq::empty()
    }
}

/// Backpressure loses nothing and reorders nothing: over a queue of any
/// positive capacity, the consumer observes exactly the pending commands
/// behind what the queue already held, in order.
pub proof fn lemma_session_no_loss_no_reorder(pending: Seq<IoEvent>, queue: Seq<IoEvent>, cap: nat)
    requires
        cap >= 1,
    ensures
        session_observed(pending, queue, cap) == queue + pending,
    decreases 2 * pending.len() + queue.len(),
{
    if pending.len() > 0 && queue.len() < cap {
        lemma_session_no_loss_no_reorder(pending.drop_first(), queue.push(pending[0]), cap);
        assert(queue.push(pending[0]) + pending.drop_first() =~= queue + pending);
    } else if queue.len() > 0 {
        lemma_session_no_loss_no_reorder(pending, queue.drop_first(), cap);
        assert(seq![queue[0]] + (queue.drop_first() + pending) =~= queue + pending);
    } else {
        assert(queue + pending =~= Seq::<IoEvent>::empty());
    }
}

/// The common case of a session that starts from an empty queue: the worker
/// sees the commands exactly as they were produced.
pub proof fn lemma_commands_arrive_in_order(cmds: Seq<IoEvent>, cap: nat)
    requires
        cap >= 1,
    ensures
        session_observed(cmds, Seq::empty(), cap) == cmds,
{
    lemma_session_no_loss_no_reorder(cmds, Seq::empty(), cap);
    assert(Seq::<IoEvent>::empty() + cmds =~= cmds);
}

} // verus!
