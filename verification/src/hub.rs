//! The client hub's replayable event log and delivery policy.
//!
//! Every outbound notification is stamped with a process-lifetime monotonic
//! `eventId` and appended to a bounded replay log, oldest evicted first.
//! Clients that missed a broadcast reconcile through `replay_since`. The
//! surrounding process owns the actual client channels; this module owns
//! the log, the id allocator, and the keep/wait/evict rules for a send.

use vstd::prelude::*;
use crate::json::JsonValue;
use crate::json::SpecJson;

verus! {

broadcast use vstd::std_specs::vec::group_vec_axioms;

/// A notification as stored for replay: `{method, eventId, params}`.
#[derive(Debug, PartialEq)]
pub struct Envelope {
    pub event_id: u64,
    pub method: String,
    pub params: JsonValue,
}

/// Mathematical model of an envelope.
pub struct SpecEnvelope {
    pub event_id: u64,
    pub method: Seq<char>,
    pub params: SpecJson,
}

impl View for Envelope {
    type V = SpecEnvelope;

    open spec fn view(&self) -> SpecEnvelope {
        SpecEnvelope { event_id: self.event_id, method: self.method@, params: self.params@ }
    }
}

/// View of a sequence of envelopes, envelope by envelope.
pub open spec fn envelopes_view(s: Seq<Envelope>) -> Seq<SpecEnvelope> {
    Seq::new(s.len(), |i: int| s[i]@)
}

/// The envelopes with an id after the cursor, in log order.
pub open spec fn spec_after_cursor(log: Seq<SpecEnvelope>, after: u64) -> Seq<SpecEnvelope> {
    log.filter(|e: SpecEnvelope| e.event_id > after)
}

/// The hub's replayable state: an id allocator and the bounded log.
pub struct ClientHub {
    /// The id the next broadcast will be stamped with; ids start at 1.
    pub next_event_id: u64,
    pub replay_capacity: usize,
    /// Oldest first.
    pub replay: Vec<Envelope>,
}

impl ClientHub {
    /// Everything the other contracts rely on: the log is bounded by the
    /// capacity; its ids were all allocated (at least 1, below the
    /// allocator's next id) and are consecutive — the stamped ids over a
    /// run are 1, 2, 3, ... with no gaps and none reused, and the log
    /// holds the newest contiguous window of them.
    pub open spec fn wf(self) -> bool {
        &&& 1 <= self.next_event_id
        &&& self.replay@.len() <= self.replay_capacity
        &&& forall|i: int|
            0 <= i < self.replay@.len() ==> #[trigger] self.replay@[i]@.event_id
                == self.replay@[0]@.event_id + i
        &&& forall|i: int|
            0 <= i < self.replay@.len() ==> 1 <= #[trigger] self.replay@[i]@.event_id
                < self.next_event_id
        &&& self.replay@.len() > 0 ==> self.replay@[self.replay@.len() - 1]@.event_id + 1
            == self.next_event_id
    }

    pub open spec fn spec_log(self) -> Seq<SpecEnvelope> {
        envelopes_view(self.replay@)
    }

    pub open spec fn spec_next_event_id(self) -> u64 {
        self.next_event_id
    }

    pub open spec fn spec_capacity(self) -> usize {
        self.replay_capacity
    }

    pub fn with_replay_capacity(replay_capacity: usize) -> (hub: ClientHub)
        ensures
            hub.wf(),
            hub.spec_next_event_id() == 1,
            hub.spec_log() == Seq::<SpecEnvelope>::empty(),
            hub.spec_capacity() == replay_capacity,
    {
        let hub = ClientHub { next_event_id: 1, replay_capacity, replay: Vec::new() };
        proof {
            assert(hub.spec_log() =~= Seq::<SpecEnvelope>::empty());
        }
        hub
    }

    pub fn new() -> (hub: ClientHub)
        ensures
            hub.wf(),
            hub.spec_next_event_id() == 1,
            hub.spec_log() == Seq::<SpecEnvelope>::empty(),
            hub.spec_capacity() == crate::limits::NOTIFICATION_REPLAY_BUFFER_SIZE,
    {
        Self::with_replay_capacity(crate::limits::NOTIFICATION_REPLAY_BUFFER_SIZE)
    }

    /// Stamps the next event id on the notification, stores it for replay
    /// (evicting the oldest entry once the log is full, storing nothing if
    /// the capacity is zero), and returns the envelope for fan-out.
    ///
    /// Event ids are consecutive: each broadcast takes exactly the
    /// allocator's value and advances it by one, so over any run the
    /// stamped ids are 1, 2, 3, ... with no gaps and none reused.
    pub fn broadcast_notification(&mut self, method: String, params: JsonValue) -> (env: Envelope)
        requires
            old(self).wf(),
            old(self).spec_next_event_id() < u64::MAX,
        ensures
            final(self).wf(),
            env@.event_id == old(self).spec_next_event_id(),
            env@.method == method@,
            env@.params == params@,
            final(self).spec_next_event_id() == old(self).spec_next_event_id() + 1,
            final(self).spec_capacity() == old(self).spec_capacity(),
            final(self).spec_log() == if old(self).spec_capacity() == 0 {
                old(self).spec_log()
            } else if old(self).spec_log().len() < old(self).spec_capacity() {
                old(self).spec_log().push(env@)
            } else {
                old(self).spec_log().drop_first().push(env@)
            },
    {
        let event_id = self.next_event_id;
        self.next_event_id = event_id + 1;
        let stored = Envelope {
            event_id,
            method: method.clone(),
            params: crate::json::clone_json(&params),
        };
        let env = Envelope { event_id, method, params };
        proof {
            assert(stored@ == env@);
        }
        if self.replay_capacity == 0 {
            proof {
                assert(self.spec_log() =~= old(self).spec_log());
            }
            return env;
        }
        let ghost prev = self.replay@;
        if self.replay.len() >= self.replay_capacity {
            self.replay.remove(0);
            proof {
                assert(self.replay@ =~= prev.drop_first());
                assert(envelopes_view(self.replay@) =~= envelopes_view(prev).drop_first());
            }
        }
        let ghost kept = self.replay@;
        self.replay.push(stored);
        proof {
            assert(self.replay@.drop_last() =~= kept);
            assert(envelopes_view(self.replay@) =~= envelopes_view(kept).push(env@));
        }
        env
    }

    /// The envelopes with `eventId > afterId` (0 when absent), in id order,
    /// truncated to `limit`; `has_more` says the scan was cut short.
    #[verifier::loop_isolation(false)]
    pub fn replay_since(&self, after_event_id: Option<u64>, limit: usize) -> (r: (
        Vec<Envelope>,
        bool,
    ))
        requires
            self.wf(),
        ensures
            ({
                let after = after_event_id.unwrap_or(0);
                let matching = spec_after_cursor(self.spec_log(), after);
                &&& envelopes_view(r.0@) == if matching.len() <= limit {
                    matching
                } else {
                    matching.take(limit as int)
                }
                &&& r.1 == (matching.len() > limit)
            }),
    {
        let after: u64 = match after_event_id {
            Some(id) => id,
            None => 0,
        };
        let mut events: Vec<Envelope> = Vec::new();
        let mut has_more = false;
        let ghost log = self.spec_log();
        proof {
            reveal(Seq::filter);
            assert(log.take(0) =~= Seq::<SpecEnvelope>::empty());
        }
        let mut i: usize = 0;
        while i < self.replay.len()
            invariant
                0 <= i <= self.replay@.len(),
                log == self.spec_log(),
                log.len() == self.replay@.len(),
                forall|j: int| 0 <= j < log.len() ==> log[j] == self.replay@[j]@,
                ({
                    let m = spec_after_cursor(log.take(i as int), after);
                    &&& envelopes_view(events@) == if m.len() <= limit {
                        m
                    } else {
                        m.take(limit as int)
                    }
                    &&& has_more == (m.len() > limit)
                }),
            decreases self.replay@.len() - i,
        {
            let ghost m = spec_after_cursor(log.take(i as int), after);
            proof {
                reveal(Seq::filter);
                assert(log.take(i + 1).drop_last() =~= log.take(i as int));
                assert(log.take(i + 1).last() == log[i as int]);
            }
            let entry = &self.replay[i];
            if entry.event_id > after {
                proof {
                    assert(spec_after_cursor(log.take(i + 1), after) == m.push(
                        self.replay@[i as int]@,
                    ));
                }
                if events.len() < limit {
                    let ghost prev = events@;
                    let copy = Envelope {
                        event_id: entry.event_id,
                        method: entry.method.clone(),
                        params: crate::json::clone_json(&entry.params),
                    };
                    events.push(copy);
                    proof {
                        assert(events@.drop_last() =~= prev);
                        assert(envelopes_view(events@) =~= envelopes_view(prev).push(
                            self.replay@[i as int]@,
                        ));
                        let m2 = m.push(self.replay@[i as int]@);
                        if m2.len() <= limit {
                            assert(envelopes_view(events@) =~= m2);
                        } else {
                            assert(m.len() == limit);
                            assert(envelopes_view(prev) == m);
                            assert(m2.take(limit as int) =~= m);
                            assert(envelopes_view(events@) =~= m2);
                        }
                    }
                } else {
                    has_more = true;
                    proof {
                        let m2 = m.push(self.replay@[i as int]@);
                        assert(m2.len() > limit);
                        assert(m2.take(limit as int) =~= if m.len() <= limit {
                            m
                        } else {
                            m.take(limit as int)
                        });
                    }
                }
            } else {
                proof {
                    assert(spec_after_cursor(log.take(i + 1), after) == m);
                }
            }
            i += 1;
        }
        proof {
            assert(log.take(self.replay@.len() as int) =~= log);
        }
        (events, has_more)
    }

    /// The id of the oldest envelope still held for replay, if any.
    pub fn earliest_event_id(&self) -> (r: Option<u64>)
        ensures
            match r {
                Some(id) => self.spec_log().len() > 0 && id == self.spec_log()[0].event_id,
                None => self.spec_log().len() == 0,
            },
    {
        if self.replay.len() > 0 {
            Some(self.replay[0].event_id)
        } else {
            None
        }
    }

    /// The highest id ever allocated, or 0 before the first broadcast.
    pub fn latest_event_id(&self) -> (r: u64)
        requires
            self.wf(),
        ensures
            r == self.spec_next_event_id() - 1,
    {
        self.next_event_id - 1
    }
}

/// What a non-blocking enqueue onto a client's queue reported.
pub enum SendOutcome {
    Delivered,
    QueueFull,
    Closed,
}

/// What the hub does about a client after an enqueue attempt.
#[derive(Debug, PartialEq)]
pub enum SendDecision {
    /// The client stays; for a full queue under broadcast this skips the
    /// notification and relies on replay.
    Keep,
    /// Unicast only: wait up to the brief bound for space, then decide again.
    WaitBriefly,
    /// Remove the session and abort its writer.
    Evict,
}

/// How the message was being delivered.
pub enum DeliveryKind {
    Unicast,
    Broadcast,
}

/// The slow-client policy after a first, non-blocking enqueue: a closed
/// channel always evicts; a full queue makes a unicast sender wait briefly
/// while a broadcast skips the client; a delivered message keeps it.
pub fn send_decision(kind: &DeliveryKind, outcome: &SendOutcome) -> (r: SendDecision)
    ensures
        r == match outcome {
            SendOutcome::Delivered => SendDecision::Keep,
            SendOutcome::Closed => SendDecision::Evict,
            SendOutcome::QueueFull => match kind {
                DeliveryKind::Unicast => SendDecision::WaitBriefly,
                DeliveryKind::Broadcast => SendDecision::Keep,
            },
        },
{
    match outcome {
        SendOutcome::Delivered => SendDecision::Keep,
        SendOutcome::Closed => SendDecision::Evict,
        SendOutcome::QueueFull => match kind {
            DeliveryKind::Unicast => SendDecision::WaitBriefly,
            DeliveryKind::Broadcast => SendDecision::Keep,
        },
    }
}

/// What the bounded wait for queue space reported.
pub enum WaitOutcome {
    Sent,
    TimedOut,
    Closed,
}

/// After the brief unicast wait: the client is evicted exactly when the
/// wait elapsed or the channel closed.
pub fn wait_decision(outcome: &WaitOutcome) -> (r: SendDecision)
    ensures
        r == match outcome {
            WaitOutcome::Sent => SendDecision::Keep,
            WaitOutcome::TimedOut => SendDecision::Evict,
            WaitOutcome::Closed => SendDecision::Evict,
        },
{
    match outcome {
        WaitOutcome::Sent => SendDecision::Keep,
        WaitOutcome::TimedOut => SendDecision::Evict,
        WaitOutcome::Closed => SendDecision::Evict,
    }
}

} // verus!
