//! Per-lobby broadcast fanout.
//!
//! One append-only event log per lobby; every authenticated connection holds
//! a subscriber, a cursor into that log. Delivery is best-effort per
//! subscriber: one that falls more than the channel's capacity behind does
//! not block the publisher — its next poll reports how many events it
//! missed and skips it forward, so the connection handler can choose to
//! resynchronize.

use vstd::prelude::*;

verus! {

use crate::messages::Event;

/// What one poll of a subscriber yields.
#[derive(Debug, Clone, Copy, PartialEq, Eq)]
pub enum Recv {
    /// The next event, exactly once and in publish order.
    Event(Event),
    /// The subscriber lagged: this many events were dropped for it, and its
    /// cursor moved past them.
    Lagged(usize),
}

/// A lobby's event channel.
pub struct Fanout {
    pub log: Vec<Event>,
    pub cap: usize,
}

/// A connection's handle onto a lobby's event channel.
#[derive(Debug, Clone, Copy, PartialEq, Eq)]
pub struct Subscriber {
    pub cursor: usize,
}

/// What one poll yields and where it leaves the cursor, as a function of the
/// log, the capacity and the cursor.
pub open spec fn spec_poll(log: Seq<Event>, cap: int, c: int) -> (Option<Recv>, int) {
    if c >= log.len() {
        (None, c)
    } else if log.len() - c > cap {
        (Some(Recv::Lagged((log.len() - cap - c) as usize)), log.len() - cap)
    } else {
        (Some(Recv::Event(log[c])), c + 1)
    }
}

/// The events a subscriber at cursor `c` receives from `n` successive polls,
/// assuming it stays within the capacity window.
pub open spec fn spec_drain(log: Seq<Event>, cap: int, c: int, n: nat) -> Seq<Event>
    decreases n,
{
    if n == 0 {
        Seq::empty()
    } else {
        let (r, c2) = spec_poll(log, cap, c);
        match r {
            Some(Recv::Event(e)) => seq![e] + spec_drain(log, cap, c2, (n - 1) as nat),
            _ => Seq::empty(),
        }
    }
}

impl Fanout {
    pub open spec fn wf(self) -> bool {
        self.cap >= 1
    }

    /// A fresh channel with the given capacity window.
    pub fn new(cap: usize) -> (f: Fanout)
        requires
            cap >= 1,
        ensures
            f.wf(),
            f.log@ == Seq::<Event>::empty(),
            f.cap == cap,
    {
        Fanout { log: Vec::new(), cap }
    }

    /// Subscribe now: the subscriber will see exactly the events published
    /// from this moment on.
    pub fn subscribe(&self) -> (s: Subscriber)
        ensures
            s.cursor == self.log@.len(),
    {
        Subscriber { cursor: self.log.len() }
    }

    /// Publish an event to every current subscriber. A channel with no
    /// subscriber accepts it all the same.
    pub fn publish(&mut self, e: Event)
        ensures
            final(self).log@ == old(self).log@.push(e),
            final(self).cap == old(self).cap,
    {
        self.log.push(e);
    }

    /// One poll: the next unseen event, a lag report, or nothing when the
    /// subscriber has seen the whole log.
    pub fn poll(&self, s: &mut Subscriber) -> (r: Option<Recv>)
        requires
            old(s).cursor <= self.log@.len(),
        ensures
            (r, final(s).cursor as int) == spec_poll(
                self.log@,
                self.cap as int,
                old(s).cursor as int,
            ),
            final(s).cursor <= self.log@.len(),
    {
        if s.cursor == self.log.len() {
            None
        } else if self.log.len() - s.cursor > self.cap {
            let missed = self.log.len() - self.cap - s.cursor;
            s.cursor = self.log.len() - self.cap;
            Some(Recv::Lagged(missed))
        } else {
            let e = self.log[s.cursor];
            s.cursor = s.cursor + 1;
            Some(Recv::Event(e))
        }
    }
}

/// Law: a connection subscribed before events are published receives those
/// events exactly once each and in publish order, as long as it stays within
/// the capacity window — `n` polls from cursor `c` yield exactly the slice
/// of the log from `c` to `c + n`. A subscriber that lags instead receives
/// an explicit miss report (see [`Fanout::poll`]); those runs are outside
/// this law.
pub proof fn lemma_fanout_in_order(log: Seq<Event>, cap: int, c: int, n: nat)
    requires
        0 <= c,
        c + n <= log.len(),
        log.len() - c <= cap,
    ensures
        spec_drain(log, cap, c, n) == log.subrange(c, c + n),
    decreases n,
{
    if n == 0 {
        assert(spec_drain(log, cap, c, n) =~= log.subrange(c, c + n));
    } else {
        lemma_fanout_in_order(log, cap, c + 1, (n - 1) as nat);
        assert(spec_drain(log, cap, c, n) =~= log.subrange(c, c + n));
    }
}

} // verus!
