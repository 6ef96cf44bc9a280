//! Keepalive: counts the pings that the server has not answered yet.
//!
//! At each interval the client sends a `PING`, unless more pings than allowed
//! are still unanswered: then the connection is stale and must be replaced.
use vstd::prelude::*;

verus! {

/// What to do when the keepalive interval has passed.
#[derive(PartialEq, Eq, Structural, Debug, Clone, Copy)]
pub enum KeepaliveAction {
    SendPing,
    Reconnect,
}

/// The unanswered pings of a connection, and how many are allowed.
#[derive(Debug, Clone, Copy)]
pub struct Keepalive {
    pub outstanding: u64,
    pub max_outstanding: u64,
}

impl Keepalive {
    /// The counter after an interval has passed, and the action it calls for.
    pub open spec fn tick_spec(self) -> (Keepalive, KeepaliveAction) {
        if self.outstanding > self.max_outstanding {
            (self, KeepaliveAction::Reconnect)
        } else {
            (
                Keepalive {
                    outstanding: if self.outstanding < u64::MAX {
                        (self.outstanding + 1) as u64
                    } else {
                        self.outstanding
                    },
                    max_outstanding: self.max_outstanding,
                },
                KeepaliveAction::SendPing,
            )
        }
    }

    /// The counter after a `PONG`: one unanswered ping less, down to none.
    pub open spec fn pong_spec(self) -> Keepalive {
        Keepalive {
            outstanding: if self.outstanding > 0 {
                (self.outstanding - 1) as u64
            } else {
                0
            },
            max_outstanding: self.max_outstanding,
        }
    }

    /// The counter after `n` intervals with no `PONG` in between.
    pub open spec fn after_ticks(self, n: nat) -> Keepalive
        decreases n,
    {
        if n == 0 {
            self
        } else {
            self.after_ticks((n - 1) as nat).tick_spec().0
        }
    }

    /// A counter with no ping sent.
    pub fn new(max_outstanding: u64) -> (k: Keepalive)
        ensures
            k == fresh(max_outstanding),
    {
        Keepalive { outstanding: 0, max_outstanding }
    }

    /// The interval has passed: send a ping and count it, or, where more
    /// pings than allowed are unanswered, ask for a new connection.
    pub fn tick(&mut self) -> (a: KeepaliveAction)
        ensures
            (*final(self), a) == old(self).tick_spec(),
    {
        if self.outstanding > self.max_outstanding {
            KeepaliveAction::Reconnect
        } else {
            if self.outstanding < u64::MAX {
                self.outstanding = self.outstanding + 1;
            }
            KeepaliveAction::SendPing
        }
    }

    /// A `PONG` came: one ping less is unanswered.
    pub fn pong(&mut self)
        ensures
            *final(self) == old(self).pong_spec(),
    {
        if self.outstanding > 0 {
            self.outstanding = self.outstanding - 1;
        }
    }
}

/// A counter with no ping sent that allows `max_outstanding` unanswered pings.
pub open spec fn fresh(max_outstanding: u64) -> Keepalive {
    Keepalive { outstanding: 0, max_outstanding }
}

/// With no `PONG`, a fresh counter sends a ping at each of the first
/// `max_outstanding + 1` intervals and asks for a new connection at the next.
pub proof fn lemma_unanswered_pings_reconnect(max_outstanding: u64)
    requires
        max_outstanding < u64::MAX,
    ensures
        forall|n: nat|
            n <= max_outstanding + 1 ==> #[trigger] fresh(max_outstanding).after_ticks(n).outstanding
                == n,
        forall|n: nat|
            n <= max_outstanding ==> #[trigger] fresh(max_outstanding).after_ticks(n).tick_spec().1
                == KeepaliveAction::SendPing,
        fresh(max_outstanding).after_ticks((max_outstanding + 1) as nat).tick_spec().1
            == KeepaliveAction::Reconnect,
{
    let k = fresh(max_outstanding);
    assert forall|n: nat| n <= max_outstanding + 1 implies #[trigger] k.after_ticks(n).outstanding
        == n && k.after_ticks(n).max_outstanding == max_outstanding by {
        lemma_after_ticks_counts(k, n);
    }
    lemma_after_ticks_counts(k, (max_outstanding + 1) as nat);
}

proof fn lemma_after_ticks_counts(k: Keepalive, n: nat)
    requires
        k.outstanding == 0,
        k.max_outstanding < u64::MAX,
        n <= k.max_outstanding + 1,
    ensures
        k.after_ticks(n).outstanding == n,
        k.after_ticks(n).max_outstanding == k.max_outstanding,
    decreases n,
{
    if n > 0 {
        lemma_after_ticks_counts(k, (n - 1) as nat);
    }
}

} // verus!
