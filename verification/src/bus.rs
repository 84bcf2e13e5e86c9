//! The change notification bus: an epoch that counts mutations and the
//! long-poll waiters parked until the next one.

use vstd::prelude::*;

verus! {

/// The epoch at which a fresh bus starts.
pub const FIRST_EPOCH: u64 = 1;

/// The state of the bus.
pub struct BusView {
    /// How many mutations were seen, counted from the first epoch.
    pub epoch: u64,
    /// The tickets of the waiters that are parked, oldest first.
    pub waiting: Seq<u64>,
    /// The ticket that the next waiter gets.
    pub next_ticket: u64,
}

/// What a long-poll call is answered with at once.
#[derive(Clone, Copy, Debug, PartialEq, Eq, Structural)]
pub enum PollStep {
    /// The caller missed an update: the current epoch is returned immediately.
    Ready(u64),
    /// The caller is up to date and is parked under a ticket until the next
    /// mutation.
    Parked(u64),
}

/// A bus on which nothing has happened yet.
pub open spec fn fresh_bus() -> BusView {
    BusView { epoch: FIRST_EPOCH, waiting: Seq::empty(), next_ticket: 0 }
}

/// The number after a counter, which starts over after the largest.
pub open spec fn successor(counter: u64) -> u64 {
    if counter == u64::MAX {
        0u64
    } else {
        (counter + 1) as u64
    }
}

/// Whether a caller that knows the given epoch is answered at once.
pub open spec fn is_stale(epoch: u64, known: Option<u64>) -> bool {
    known matches Some(k) && k != epoch
}

/// The answer to a long-poll call.
pub open spec fn wait_step(bus: BusView, known: Option<u64>) -> PollStep {
    if is_stale(bus.epoch, known) {
        PollStep::Ready(bus.epoch)
    } else {
        PollStep::Parked(bus.next_ticket)
    }
}

/// The bus after a long-poll call.
pub open spec fn after_wait(bus: BusView, known: Option<u64>) -> BusView {
    if is_stale(bus.epoch, known) {
        bus
    } else {
        BusView {
            epoch: bus.epoch,
            waiting: bus.waiting.push(bus.next_ticket),
            next_ticket: successor(bus.next_ticket),
        }
    }
}

/// The bus after a mutation: the epoch moves on by one and no waiter stays.
pub open spec fn after_notify(bus: BusView) -> BusView {
    BusView {
        epoch: successor(bus.epoch),
        waiting: Seq::empty(),
        next_ticket: bus.next_ticket,
    }
}

/// A caller that knows the epoch before the current one is answered at once
/// with the current epoch, and the bus stays as it is.
pub proof fn lemma_replay(bus: BusView)
    requires
        bus.epoch >= 1,
    ensures
        wait_step(bus, Some((bus.epoch - 1) as u64)) == PollStep::Ready(bus.epoch),
        after_wait(bus, Some((bus.epoch - 1) as u64)) == bus,
{
}

/// A caller that knows the current epoch is parked, is among the waiters that
/// the next mutation wakes, and then sees the epoch after the one it knew.
pub proof fn lemma_parked_until_next(bus: BusView)
    requires
        bus.epoch < u64::MAX,
    ensures
        wait_step(bus, Some(bus.epoch)) == PollStep::Parked(bus.next_ticket),
        after_wait(bus, Some(bus.epoch)).epoch == bus.epoch,
        after_wait(bus, Some(bus.epoch)).waiting.last() == bus.next_ticket,
        after_notify(after_wait(bus, Some(bus.epoch))).epoch == bus.epoch + 1,
        after_notify(after_wait(bus, Some(bus.epoch))).waiting.len() == 0,
{
}

/// A caller that names no epoch is parked like one that is up to date.
pub proof fn lemma_unknown_epoch_parks(bus: BusView)
    ensures
        wait_step(bus, None) == PollStep::Parked(bus.next_ticket),
{
}

/// The epoch counter and the registry of parked waiters.
pub struct RtpNotifier {
    epoch: u64,
    waiting: Vec<u64>,
    next_ticket: u64,
}

impl View for RtpNotifier {
    type V = BusView;

    closed spec fn view(&self) -> BusView {
        BusView { epoch: self.epoch, waiting: self.waiting@, next_ticket: self.next_ticket }
    }
}

fn next_after(counter: u64) -> (next: u64)
    ensures
        next == successor(counter),
{
    if counter == u64::MAX {
        0
    } else {
        counter + 1
    }
}

impl RtpNotifier {
    /// A bus at the first epoch with no waiter.
    pub fn new() -> (bus: Self)
        ensures
            bus@ == fresh_bus(),
    {
        RtpNotifier { epoch: FIRST_EPOCH, waiting: Vec::new(), next_ticket: 0 }
    }

    /// The current epoch: what a woken waiter is answered with.
    pub fn epoch(&self) -> (epoch: u64)
        ensures
            epoch == self@.epoch,
    {
        self.epoch
    }

    /// The number of waiters that are parked.
    pub fn pending(&self) -> (n: usize)
        ensures
            n == self@.waiting.len(),
    {
        self.waiting.len()
    }

    /// Answers a long-poll call: at once with the current epoch where the
    /// caller knows another one, else by parking the caller.
    pub fn api_long_poll(&mut self, serial: Option<u64>) -> (step: PollStep)
        ensures
            step == wait_step(old(self)@, serial),
            final(self)@ == after_wait(old(self)@, serial),
    {
        let stale = match serial {
            Some(known) => known != self.epoch,
            None => false,
        };
        if stale {
            PollStep::Ready(self.epoch)
        } else {
            let ticket = self.next_ticket;
            self.waiting.push(ticket);
            self.next_ticket = next_after(ticket);
            PollStep::Parked(ticket)
        }
    }

    /// Records one mutation: moves the epoch on by one and hands out the
    /// tickets of all parked waiters, which are to be woken.
    pub fn rtp_notify_pollers(&mut self) -> (woken: Vec<u64>)
        ensures
            woken@ == old(self)@.waiting,
            final(self)@ == after_notify(old(self)@),
    {
        self.epoch = next_after(self.epoch);
        let mut woken: Vec<u64> = Vec::new();
        std::mem::swap(&mut woken, &mut self.waiting);
        woken
    }
}

} // verus!
