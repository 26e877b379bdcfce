//! A fair (ticket-based) lock.
//!
//! A ticket lock rather than a plain test-and-set spin lock: several CPUs can contend for the same
//! lock at very high frequency and for a long time, and a lock without a fairness guarantee lets
//! some of them starve another one. A ticket lock serves the waiters in the order in which they
//! drew their tickets.

use vstd::prelude::*;

verus! {

/// A value behind a ticket lock. Each of the operations below is one atomic step of a CPU.
pub struct Mutex<T> {
    pub next_ticket: u32,
    pub now_serving: u32,
    pub data: T,
}

/// What the holder of the lock keeps: its ticket, and the interrupt mask that it had before.
pub struct MutexGuard {
    pub ticket: u32,
    pub daif: u64,
}

/// The ticket that is drawn `n` draws after `ticket`.
pub open spec fn ticket_after(ticket: u32, n: nat) -> int {
    (ticket + n) as int % 0x1_0000_0000
}

impl<T> Mutex<T> {
    /// How many tickets were drawn and not yet returned.
    pub open spec fn outstanding(&self) -> int {
        (self.next_ticket - self.now_serving) % 0x1_0000_0000
    }

    pub fn new(d: T) -> (mutex: Self)
        ensures
            mutex.next_ticket == 0,
            mutex.now_serving == 0,
            mutex.data == d,
    {
        Mutex { next_ticket: 0, now_serving: 0, data: d }
    }

    /// Draws the next ticket. A waiter draws one ticket and keeps it.
    pub fn draw_ticket(&mut self) -> (ticket: u32)
        ensures
            ticket == old(self).next_ticket,
            final(self).next_ticket == ticket_after(old(self).next_ticket, 1),
            final(self).now_serving == old(self).now_serving,
            final(self).data == old(self).data,
    {
        let ticket: u32 = self.next_ticket;
        self.next_ticket = self.next_ticket.wrapping_add(1);
        ticket
    }

    /// Takes the lock, where it is this ticket's turn.
    pub fn lock(&self, ticket: u32, daif: u64) -> (guard: Option<MutexGuard>)
        ensures
            match guard {
                Some(g) => self.now_serving == ticket && g.ticket == ticket && g.daif == daif,
                None => self.now_serving != ticket,
            },
    {
        if self.now_serving == ticket {
            Some(MutexGuard { ticket, daif })
        } else {
            None
        }
    }

    /// Hands the lock to the next ticket, and tells the interrupt mask to restore.
    pub fn release(&mut self, guard: MutexGuard) -> (daif: u64)
        ensures
            daif == guard.daif,
            final(self).now_serving == ticket_after(old(self).now_serving, 1),
            final(self).next_ticket == old(self).next_ticket,
            final(self).data == old(self).data,
    {
        self.now_serving = self.now_serving.wrapping_add(1);
        guard.daif
    }
}

/// While fewer than 2^32 tickets are out, two outstanding tickets are never the same, so no two
/// CPUs are served at once.
pub proof fn tickets_are_distinct(now_serving: u32, j: nat, k: nat)
    requires
        j < k < 0x1_0000_0000,
    ensures
        ticket_after(now_serving, j) != ticket_after(now_serving, k),
{
}

/// First come, first served: a ticket that is drawn while `n` others are out is served after
/// exactly `n` releases.
pub proof fn tickets_are_served_in_order(now_serving: u32, next_ticket: u32, releases: nat)
    ensures
        ({
            let n = (next_ticket - now_serving) % 0x1_0000_0000;
            releases < 0x1_0000_0000 ==> (ticket_after(now_serving, releases) == next_ticket
                <==> releases == n)
        }),
{
}

/// Drawing adds one outstanding ticket, and releasing takes the oldest one away.
pub proof fn outstanding_tickets<T>(mutex: Mutex<T>)
    requires
        mutex.outstanding() < 0xFFFF_FFFF,
    ensures
        (ticket_after(mutex.next_ticket, 1) - mutex.now_serving) % 0x1_0000_0000
            == mutex.outstanding() + 1,
        mutex.outstanding() > 0 ==> (mutex.next_ticket - ticket_after(mutex.now_serving, 1))
            % 0x1_0000_0000 == mutex.outstanding() - 1,
{
}

} // verus!
