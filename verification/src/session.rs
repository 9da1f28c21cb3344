//! The shared session state behind the dispatcher and the reader loop:
//! a single pending-response slot holding at most one completion ticket.
//!
//! Arming the slot, taking it and clearing it after a timeout are the only
//! transitions.  Every transition is performed under the caller's lock;
//! the model below shows that each armed ticket is resolved by at most one
//! of the reader path and the timeout path, never both.

use vstd::prelude::*;
use crate::wire::{ApiResult, Command, is_classified, spec_wire_line};

verus! {

/// The mathematical state of the slot: the pending ticket, if any, and the
/// next ticket to hand out.
pub struct SlotModel {
    pub pending: Option<nat>,
    pub next: nat,
}

/// A resolution of one completion ticket, by one of the two paths.
pub enum Resolution {
    /// The reader loop took the slot on an inbound chunk.
    Reader(nat),
    /// The dispatcher's timeout path cleared its own ticket.
    Expired(nat),
}

/// The ticket that a resolution resolves.
pub open spec fn res_ticket(r: Resolution) -> nat {
    match r {
        Resolution::Reader(t) => t,
        Resolution::Expired(t) => t,
    }
}

/// The transitions of the slot.
pub enum SlotEvent {
    /// A dispatcher call tries to arm the slot with a fresh ticket.
    Arm,
    /// The reader loop takes whatever is pending.
    Take,
    /// The timeout path of the call holding this ticket clears it.
    TimeoutClear(nat),
}

/// The state before any command was sent.
pub open spec fn initial_slot() -> SlotModel {
    SlotModel { pending: None, next: 0 }
}

/// One transition: the state after the event, and the resolution it
/// produced, if any.  Arming an occupied slot changes nothing (the caller
/// observes busy); taking an empty slot changes nothing (a stray chunk is
/// discarded); clearing matches only the caller's own ticket.
pub open spec fn slot_step(m: SlotModel, e: SlotEvent) -> (SlotModel, Option<Resolution>) {
    match e {
        SlotEvent::Arm => {
            if m.pending is Some {
                (m, None)
            } else {
                (SlotModel { pending: Some(m.next), next: m.next + 1 }, None)
            }
        },
        SlotEvent::Take => {
            match m.pending {
                Some(t) => (
                    SlotModel { pending: None, next: m.next },
                    Some(Resolution::Reader(t)),
                ),
                None => (m, None),
            }
        },
        SlotEvent::TimeoutClear(t) => {
            if m.pending == Some(t) {
                (SlotModel { pending: None, next: m.next }, Some(Resolution::Expired(t)))
            } else {
                (m, None)
            }
        },
    }
}

/// The resolutions that a resolution option contributes to the log.
pub open spec fn res_log(r: Option<Resolution>) -> Seq<Resolution> {
    match r {
        None => Seq::<Resolution>::empty(),
        Some(x) => seq![x],
    }
}

/// Replays a sequence of events: the final state and the log of
/// resolutions, in order.
pub open spec fn slot_run(m: SlotModel, evs: Seq<SlotEvent>) -> (SlotModel, Seq<Resolution>)
    decreases evs.len(),
{
    if evs.len() == 0 {
        (m, Seq::<Resolution>::empty())
    } else {
        let (m1, r) = slot_step(m, evs[0]);
        let (m2, rs) = slot_run(m1, evs.drop_first());
        (m2, res_log(r) + rs)
    }
}

/// How many entries of the log resolve ticket `t`.
pub open spec fn count_res(log: Seq<Resolution>, t: nat) -> nat
    decreases log.len(),
{
    if log.len() == 0 {
        0
    } else {
        count_res(log.drop_first(), t) + if res_ticket(log[0]) == t {
            1nat
        } else {
            0nat
        }
    }
}

/// The invariant tying a state to the log so far: the pending ticket was
/// issued and is still unresolved, every other issued ticket is resolved
/// exactly once, and no unissued ticket is ever resolved.
pub open spec fn slot_inv(m: SlotModel, log: Seq<Resolution>) -> bool {
    &&& match m.pending {
        Some(t) => t < m.next && count_res(log, t) == 0,
        None => true,
    }
    &&& forall|t: nat| t < m.next && m.pending != Some(t) ==> #[trigger] count_res(log, t) == 1
    &&& forall|t: nat| t >= m.next ==> #[trigger] count_res(log, t) == 0
}

/// Counting distributes over appending one resolution.
proof fn lemma_count_res_append(log: Seq<Resolution>, r: Resolution, t: nat)
    ensures
        count_res(log.push(r), t) == count_res(log, t) + if res_ticket(r) == t {
            1nat
        } else {
            0nat
        },
    decreases log.len(),
{
    assert(log.push(r).len() == log.len() + 1);
    assert(count_res(log.push(r), t) == count_res(log.push(r).drop_first(), t) + if res_ticket(
        log.push(r)[0],
    ) == t {
        1nat
    } else {
        0nat
    });
    if log.len() == 0 {
        assert(log.push(r)[0] == r);
        assert(log.push(r).drop_first() =~= Seq::<Resolution>::empty());
        assert(count_res(Seq::<Resolution>::empty(), t) == 0);
    } else {
        assert(log.push(r)[0] == log[0]);
        assert(log.push(r).drop_first() =~= log.drop_first().push(r));
        lemma_count_res_append(log.drop_first(), r, t);
        assert(count_res(log, t) == count_res(log.drop_first(), t) + if res_ticket(log[0]) == t {
            1nat
        } else {
            0nat
        });
    }
}

/// Every single transition preserves the invariant.
pub proof fn lemma_slot_step_preserves_inv(m: SlotModel, log: Seq<Resolution>, e: SlotEvent)
    requires
        slot_inv(m, log),
    ensures
        ({
            let (m1, r) = slot_step(m, e);
            slot_inv(m1, log + res_log(r))
        }),
{
    let (m1, r) = slot_step(m, e);
    match r {
        None => {
            assert(log + res_log(r) =~= log);
        },
        Some(x) => {
            assert(log + res_log(r) =~= log.push(x));
            assert forall|t: nat| true implies count_res(log.push(x), t) == count_res(log, t)
                + if res_ticket(x) == t {
                1nat
            } else {
                0nat
            } by {
                lemma_count_res_append(log, x, t);
            }
        },
    }
}

/// Replaying any sequence of events preserves the invariant.
pub proof fn lemma_slot_run_preserves_inv(m: SlotModel, log: Seq<Resolution>, evs: Seq<SlotEvent>)
    requires
        slot_inv(m, log),
    ensures
        ({
            let (m2, rs) = slot_run(m, evs);
            slot_inv(m2, log + rs)
        }),
    decreases evs.len(),
{
    if evs.len() == 0 {
        assert(log + Seq::<Resolution>::empty() =~= log);
    } else {
        let (m1, r) = slot_step(m, evs[0]);
        lemma_slot_step_preserves_inv(m, log, evs[0]);
        let (m2, rs) = slot_run(m1, evs.drop_first());
        lemma_slot_run_preserves_inv(m1, log + res_log(r), evs.drop_first());
        assert((log + res_log(r)) + rs =~= log + (res_log(r) + rs));
    }
}

/// Exactly-once resolution: in any run from the initial state, a given
/// ticket is resolved by at most one of the reader path and the timeout
/// path, never both; and once a ticket has left the pending slot it is
/// resolved exactly once.
pub proof fn lemma_exactly_once_resolution(evs: Seq<SlotEvent>, t: nat)
    ensures
        count_res(slot_run(initial_slot(), evs).1, t) <= 1,
        ({
            let (m2, rs) = slot_run(initial_slot(), evs);
            (t < m2.next && m2.pending != Some(t)) ==> count_res(rs, t) == 1
        }),
{
    assert forall|u: nat| true implies count_res(Seq::<Resolution>::empty(), u) == 0 by {}
    lemma_slot_run_preserves_inv(initial_slot(), Seq::<Resolution>::empty(), evs);
    let (m2, rs) = slot_run(initial_slot(), evs);
    assert(Seq::<Resolution>::empty() + rs =~= rs);
    if t >= m2.next {
        assert(count_res(rs, t) == 0);
    }
}

/// At most one command is in flight: while the slot is occupied, any other
/// dispatcher call that tries to arm it observes busy and changes nothing.
pub proof fn lemma_at_most_one_in_flight(m: SlotModel)
    ensures
        m.pending is Some ==> slot_step(m, SlotEvent::Arm) == (m, None::<Resolution>),
        m.pending is None ==> slot_step(m, SlotEvent::Arm).0.pending == Some(m.next),
{
}

/// A timeout frees the slot: after the holder's timeout path clears its
/// ticket, nothing is pending and the next arm attempt succeeds.
pub proof fn lemma_timeout_clears_slot(m: SlotModel, t: nat)
    requires
        m.pending == Some(t),
    ensures
        ({
            let (m1, r) = slot_step(m, SlotEvent::TimeoutClear(t));
            m1.pending is None && r == Some(Resolution::Expired(t)) && slot_step(
                m1,
                SlotEvent::Arm,
            ).0.pending == Some(m1.next)
        }),
{
}

/// A stray response is discarded: a chunk arriving while nothing is
/// pending resolves nothing and leaves the state unchanged.
pub proof fn lemma_stray_response_discarded(m: SlotModel)
    requires
        m.pending is None,
    ensures
        slot_step(m, SlotEvent::Take) == (m, None::<Resolution>),
{
}

/// The executable slot: the pending completion ticket, if any, and the
/// counter from which fresh tickets are taken.  The surrounding client
/// keeps one value of this type under its mutual-exclusion lock, beside
/// the write half of the socket and the per-ticket completion signals.
pub struct SlotState {
    pending: Option<u64>,
    next_ticket: u64,
}

impl View for SlotState {
    type V = SlotModel;

    closed spec fn view(&self) -> SlotModel {
        SlotModel {
            pending: match self.pending {
                Some(t) => Some(t as nat),
                None => None,
            },
            next: self.next_ticket as nat,
        }
    }
}

impl SlotState {
    /// A fresh slot: nothing pending, tickets from zero.
    pub fn new() -> (s: SlotState)
        ensures
            s@ == initial_slot(),
    {
        SlotState { pending: None, next_ticket: 0 }
    }

    /// Whether a command is currently in flight.
    pub fn is_pending(&self) -> (r: bool)
        ensures
            r == (self@.pending is Some),
    {
        self.pending.is_some()
    }

    /// Whether the ticket counter has run out, so that no fresh ticket can
    /// be handed to another command.
    pub fn exhausted(&self) -> (r: bool)
        ensures
            r == (self@.next == u64::MAX),
    {
        self.next_ticket == u64::MAX
    }

    /// Arms the slot with a fresh ticket, or reports busy.  This is the
    /// dispatcher's first step, taken under the lock.
    pub fn arm(&mut self) -> (r: Option<u64>)
        requires
            old(self)@.next < u64::MAX,
        ensures
            final(self)@ == slot_step(old(self)@, SlotEvent::Arm).0,
            match r {
                Some(t) => old(self)@.pending is None && t == old(self)@.next,
                None => old(self)@.pending is Some,
            },
    {
        match self.pending {
            Some(_) => None,
            None => {
                let t = self.next_ticket;
                self.pending = Some(t);
                self.next_ticket = t + 1;
                Some(t)
            },
        }
    }

    /// Takes the pending ticket, leaving the slot empty.  This is the
    /// reader loop's step, taken under the lock.
    pub fn take(&mut self) -> (r: Option<u64>)
        ensures
            final(self)@ == slot_step(old(self)@, SlotEvent::Take).0,
            slot_step(old(self)@, SlotEvent::Take).1 == match r {
                Some(t) => Some(Resolution::Reader(t as nat)),
                None => None::<Resolution>,
            },
            match r {
                Some(t) => old(self)@.pending == Some(t as nat),
                None => old(self)@.pending is None,
            },
    {
        let r = self.pending;
        self.pending = None;
        r
    }

    /// Clears the slot only if it still holds the caller's own ticket.
    /// This is the timeout path: a late resolution by the reader, or a
    /// newer command's ticket, is left untouched.
    pub fn clear_if(&mut self, t: u64) -> (r: bool)
        ensures
            final(self)@ == slot_step(old(self)@, SlotEvent::TimeoutClear(t as nat)).0,
            slot_step(old(self)@, SlotEvent::TimeoutClear(t as nat)).1 == if r {
                Some(Resolution::Expired(t as nat))
            } else {
                None::<Resolution>
            },
            r == (old(self)@.pending == Some(t as nat)),
    {
        match self.pending {
            Some(p) => {
                if p == t {
                    self.pending = None;
                    true
                } else {
                    false
                }
            },
            None => false,
        }
    }
}

/// The dispatcher's first half: under the lock, either arms the slot and
/// yields the fresh ticket with the exact bytes to put on the socket, or
/// reports that a command is already in flight.
pub fn send_begin(slot: &mut SlotState, command: &Command) -> (r: Result<(u64, Vec<u8>), ApiResult>)
    requires
        old(slot)@.next < u64::MAX,
    ensures
        match r {
            Ok((t, line)) => {
                &&& old(slot)@.pending is None
                &&& t == old(slot)@.next
                &&& final(slot)@ == slot_step(old(slot)@, SlotEvent::Arm).0
                &&& line@ == spec_wire_line(*command)
            },
            Err(e) => {
                &&& old(slot)@.pending is Some
                &&& final(slot)@ == old(slot)@
                &&& e matches ApiResult::Error(m) && m@ == "busy"@
            },
        },
{
    match slot.arm() {
        None => Err(ApiResult::Error("busy".to_owned())),
        Some(t) => Ok((t, command.wire_line())),
    }
}

/// The dispatcher's timeout path: under the lock again, clears its own
/// ticket if still pending, so that a late response cannot be
/// misattributed to a future command, and reports the timeout.
pub fn send_timeout(slot: &mut SlotState, t: u64) -> (r: ApiResult)
    ensures
        final(slot)@ == slot_step(old(slot)@, SlotEvent::TimeoutClear(t as nat)).0,
        r is Timeout,
{
    let _ = slot.clear_if(t);
    ApiResult::Timeout
}

/// The reader loop's step for one inbound chunk: takes the pending ticket,
/// if any, and says what its completion signal must be resolved to; with
/// nothing pending the chunk is discarded.
pub fn reader_on_chunk(slot: &mut SlotState, chunk: &[u8]) -> (r: Option<(u64, ApiResult)>)
    ensures
        final(slot)@ == slot_step(old(slot)@, SlotEvent::Take).0,
        match r {
            Some((t, res)) => old(slot)@.pending == Some(t as nat) && is_classified(chunk@, res),
            None => old(slot)@.pending is None && final(slot)@ == old(slot)@,
        },
{
    match slot.take() {
        Some(t) => Some((t, crate::wire::classify_response(chunk))),
        None => None,
    }
}

} // verus!
