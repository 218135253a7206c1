use vstd::prelude::*;

use crate::checkpoint::{run_store, writes_follow_delivery_order, CheckpointState, StoreEvent};

verus! {

/// How long the shipper waits before it connects again after a failure.
pub const RECONNECT_DELAY_MS: u64 = 1235;

/// How long one wait for a queued record lasts before the shipper looks again.
pub const RECEIVE_TIMEOUT_MS: u64 = 1235;

/// What happened since the shipper's last action.
#[derive(Debug)]
pub enum ShipEvent {
    /// The shipper begins.
    Start,
    /// The connection to the collector is open.
    Connected,
    /// Opening the connection failed.
    ConnectFailed,
    /// A record was taken from the queue: its line and its cursor.
    Received(String, String),
    /// The wait for a record ended with none.
    ReceiveTimedOut,
    /// The held line was written and flushed.
    Written,
    /// Writing the held line failed.
    WriteFailed,
    /// The cursor of the written record was handed on.
    Acknowledged,
}

/// What the shipper asks to be done next.
#[derive(Debug, PartialEq, Eq)]
pub enum ShipAction {
    /// Open the connection now.
    Connect,
    /// Wait this many milliseconds, then open the connection.
    ConnectAfter(u64),
    /// Wait for the next record on the queue.
    Receive,
    /// Write this line on the connection.
    Send(String),
    /// Hand this cursor to the checkpoint store.
    Acknowledge(String),
}

/// The network loop's decisions. It holds at most one record, from the
/// moment it takes it off the queue until its line has been written; on a
/// failure the connection is rebuilt and the same line is sent again, so a
/// record is acknowledged only once it was written, and none is dropped.
pub struct Shipper {
    pub connected: bool,
    /// The record being delivered: its line and its cursor.
    pub pending: Option<(String, String)>,
    /// Set once the held record was written, until its cursor is handed on.
    pub written: bool,
    /// Cursors of the records taken off the queue, in order.
    pub received: Ghost<Seq<Seq<char>>>,
    /// Cursors acknowledged, in order.
    pub acked: Ghost<Seq<Seq<char>>>,
}

impl Shipper {
    /// Every record taken is acknowledged, in the order taken, or is the one
    /// still held; a held record that is marked written is the one that the
    /// pending acknowledgment is for.
    pub open spec fn inv(&self) -> bool {
        match self.pending {
            Some(p) => self.received@ == self.acked@.push(p.1@),
            None => self.received@ == self.acked@ && !self.written,
        }
    }

    /// Whether `e` can come now: a record arrives only when none is held,
    /// and write outcomes only for a held record not yet written.
    pub open spec fn expects(&self, e: ShipEvent) -> bool {
        match e {
            ShipEvent::Received(_, _) => self.pending is None,
            ShipEvent::Written => self.pending is Some && !self.written,
            ShipEvent::WriteFailed => self.pending is Some && !self.written,
            ShipEvent::Acknowledged => self.pending is Some && self.written,
            _ => !self.written,
        }
    }

    /// The cursor of the held record.
    pub open spec fn held_cursor(&self) -> Seq<char> {
        match self.pending {
            Some(p) => p.1@,
            None => Seq::empty(),
        }
    }

    pub fn new() -> (r: Shipper)
        ensures
            r.inv(),
            !r.connected,
            r.pending is None,
            r.received@ == Seq::<Seq<char>>::empty(),
            r.acked@ == Seq::<Seq<char>>::empty(),
    {
        Shipper {
            connected: false,
            pending: None,
            written: false,
            received: Ghost(Seq::empty()),
            acked: Ghost(Seq::empty()),
        }
    }

    pub fn accepts(&self, e: &ShipEvent) -> (r: bool)
        ensures
            r == self.expects(*e),
    {
        match e {
            ShipEvent::Received(_, _) => self.pending.is_none(),
            ShipEvent::Written => self.pending.is_some() && !self.written,
            ShipEvent::WriteFailed => self.pending.is_some() && !self.written,
            ShipEvent::Acknowledged => self.pending.is_some() && self.written,
            _ => !self.written,
        }
    }

    fn resume(&self) -> (r: ShipAction)
        requires
            self.pending is Some ==> !self.written,
        ensures
            match self.pending {
                Some(p) => r matches ShipAction::Send(l) && l@ == p.0@,
                None => r == ShipAction::Receive,
            },
    {
        match &self.pending {
            Some(p) => ShipAction::Send(p.0.clone()),
            None => ShipAction::Receive,
        }
    }

    /// Takes one event and says what to do next.
    pub fn step(&mut self, e: ShipEvent) -> (r: ShipAction)
        requires
            old(self).inv(),
            old(self).expects(e),
        ensures
            final(self).inv(),
            !(e is Received) ==> final(self).received@ == old(self).received@,
            r matches ShipAction::Acknowledge(_) ==> e is Written,
            final(self).written == (e is Written),
            !(e is Connected || e is ConnectFailed || e is WriteFailed) ==> final(self).connected
                == old(self).connected,
            match e {
                ShipEvent::Start => r == ShipAction::Connect && final(self).pending == old(
                    self,
                ).pending && final(self).acked@ == old(self).acked@,
                ShipEvent::Connected => final(self).connected && final(self).pending == old(
                    self,
                ).pending && final(self).acked@ == old(self).acked@ && match old(self).pending {
                    Some(p) => r matches ShipAction::Send(l) && l@ == p.0@,
                    None => r == ShipAction::Receive,
                },
                ShipEvent::ConnectFailed => !final(self).connected && r == ShipAction::ConnectAfter(
                    RECONNECT_DELAY_MS,
                ) && final(self).pending == old(self).pending && final(self).acked@ == old(
                    self,
                ).acked@,
                ShipEvent::Received(line, cursor) => r matches ShipAction::Send(l) && l@ == line@
                    && final(self).pending == Some((line, cursor)) && final(self).received@ == old(
                    self,
                ).received@.push(cursor@) && final(self).acked@ == old(self).acked@,
                ShipEvent::ReceiveTimedOut => r == ShipAction::Receive && final(self).pending == old(
                    self,
                ).pending && final(self).acked@ == old(self).acked@,
                ShipEvent::Written => final(self).written && final(self).pending == old(
                    self,
                ).pending && final(self).acked@ == old(self).acked@ && (r matches ShipAction::Acknowledge(
                    c,
                ) && c@ == old(self).held_cursor()),
                ShipEvent::WriteFailed => !final(self).connected && r == ShipAction::ConnectAfter(
                    RECONNECT_DELAY_MS,
                ) && final(self).pending == old(self).pending && final(self).acked@ == old(
                    self,
                ).acked@,
                ShipEvent::Acknowledged => r == ShipAction::Receive && final(self).pending is None
                    && final(self).acked@ == old(self).acked@.push(old(self).held_cursor()),
            },
    {
        match e {
            ShipEvent::Start => ShipAction::Connect,
            ShipEvent::Connected => {
                self.connected = true;
                self.resume()
            },
            ShipEvent::ConnectFailed => {
                self.connected = false;
                ShipAction::ConnectAfter(RECONNECT_DELAY_MS)
            },
            ShipEvent::Received(line, cursor) => {
                let l = line.clone();
                proof {
                    self.received@ = self.received@.push(cursor@);
                }
                self.pending = Some((line, cursor));
                ShipAction::Send(l)
            },
            ShipEvent::ReceiveTimedOut => ShipAction::Receive,
            ShipEvent::Written => {
                self.written = true;
                match &self.pending {
                    Some(p) => ShipAction::Acknowledge(p.1.clone()),
                    None => ShipAction::Receive,
                }
            },
            ShipEvent::WriteFailed => {
                self.connected = false;
                ShipAction::ConnectAfter(RECONNECT_DELAY_MS)
            },
            ShipEvent::Acknowledged => {
                proof {
                    self.acked@ = self.acked@.push(self.held_cursor());
                }
                self.pending = None;
                self.written = false;
                ShipAction::Receive
            },
        }
    }
}

/// No record is skipped: every acknowledged cursor is the cursor of the
/// record taken at the same place in the order, and a record taken but not
/// acknowledged is the single one still held, which is sent again until it
/// is written. So a restart from the last acknowledged cursor can only
/// deliver the held record a second time, never leave one out.
pub proof fn acknowledged_prefix_of_taken(s: Shipper)
    requires
        s.inv(),
    ensures
        s.acked@.len() <= s.received@.len() <= s.acked@.len() + 1,
        forall|i: int| 0 <= i < s.acked@.len() ==> s.acked@[i] == s.received@[i],
        s.received@.len() == s.acked@.len() + 1 ==> (s.pending matches Some(p) && p.1@
            == s.received@.last()),
        s.received@.len() == s.acked@.len() ==> s.pending is None,
{
}

/// A worker that is killed at any point and restarted from its checkpoint
/// leaves no record out. The shipper `s` has taken `received` and handed its
/// acknowledgments, in order, to a store that ran `ev`; run one delivered
/// the acknowledged records and, if written, the held one. Every cursor the
/// store ever wrote is that of a record `p` that run one acknowledged, in the
/// order taken, and `p` lies before the first record run one did not
/// deliver: run two, starting at `p`, sends again only records from `p` on,
/// and every record run one left undelivered comes after `p`, so none is
/// skipped.
pub proof fn restart_skips_no_record(s: Shipper, s0: CheckpointState, ev: Seq<StoreEvent>)
    requires
        s.inv(),
        s0.latest == s0.written,
    ensures
        ({
            let w = run_store(s0, s.acked@, ev).2;
            let delivered = s.acked@.len() + if s.written {
                1int
            } else {
                0int
            };
            &&& delivered <= s.received@.len()
            &&& forall|i: int|
                0 <= i < w.len() ==> {
                    let p = #[trigger] w[i].0;
                    &&& 0 <= p < s.acked@.len()
                    &&& w[i].1 == s.received@[p]
                    &&& p < delivered
                }
        }),
{
    writes_follow_delivery_order(s0, s.acked@, ev);
    acknowledged_prefix_of_taken(s);
    let r = run_store(s0, s.acked@, ev);
    assert(r.1 <= s.acked@.len());
}

} // verus!
