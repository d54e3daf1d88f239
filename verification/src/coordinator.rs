use vstd::prelude::*;

use crate::gitlab::User;
use crate::text::str_eq;

verus! {

// ---------------------------------------------------------------------------
// Search coordinator.
//
// The coordinator decouples keystroke-rate term changes from a rate-limited
// backend. It is a state machine over three phases:
//
//   Idle -> Pending(term) -> Querying(term) -> Idle
//
// A submitted term starts (or restarts) the debounce timer; a term arriving
// while one is pending replaces it; a term arriving while a query is in
// flight is buffered and becomes pending when the query completes. When the
// timer elapses the pending term is handed out as a request, unless it equals
// the term most recently queried. The empty term short-circuits to an
// immediate empty success. Outcomes queue up in production order and are
// drained with `poll`.
//
// Each operation's postcondition is one of the `*_rel` transition relations
// below, which pin down the next state exactly; the laws at the bottom of
// the module are proved from the relations alone.
// ---------------------------------------------------------------------------

/// A query the coordinator asks the backend to run.
#[derive(Debug)]
pub struct SearchRequest {
    pub term: String,
    /// Freshness marker captured when the term was submitted.
    pub generation: u64,
}

/// A backend answer tagged with the generation of the request it belongs to.
#[derive(Debug)]
pub struct SearchOutcome {
    pub generation: u64,
    pub result: Result<Vec<User>, String>,
}

/// Debounce phase.
pub enum Phase {
    /// Nothing pending and nothing in flight.
    Idle,
    /// A term waiting out its debounce interval.
    Pending { term: String, generation: u64, deadline: u64 },
    /// A backend call in flight, with at most one term buffered behind it.
    Querying { term: String, generation: u64, buffered: Option<(String, u64)> },
}

pub struct Coordinator {
    pub phase: Phase,
    /// Debounce interval in milliseconds; a tunable, not a constant.
    pub debounce_ms: u64,
    /// The term most recently handed out as a request.
    pub last_queried: Option<String>,
    /// Outcomes not yet drained, oldest first.
    pub outcomes: Vec<SearchOutcome>,
    /// Set by `stop`: no further requests will be issued.
    pub stopped: bool,
}

// ---------------------------------------------------------------------------
// Transition relations.
// ---------------------------------------------------------------------------

/// Everything `submit` leaves alone.
pub open spec fn same_but_phase_outcomes(pre: Coordinator, post: Coordinator) -> bool {
    &&& post.debounce_ms == pre.debounce_ms
    &&& post.last_queried == pre.last_queried
    &&& post.stopped == pre.stopped
}

/// What `submit(term, generation)` at time `now` does.
pub open spec fn submit_rel(
    pre: Coordinator,
    post: Coordinator,
    term: Seq<char>,
    generation: u64,
    now: u64,
) -> bool {
    if pre.stopped {
        post == pre
    } else if term.len() == 0 {
        // Empty term: immediate empty success, nothing pending any more; an
        // in-flight query keeps running, but its buffered successor is gone.
        &&& same_but_phase_outcomes(pre, post)
        &&& post.outcomes@.len() == pre.outcomes@.len() + 1
        &&& post.outcomes@.drop_last() == pre.outcomes@
        &&& post.outcomes@.last().generation == generation
        &&& post.outcomes@.last().result matches Ok(v) && v@.len() == 0
        &&& match pre.phase {
            Phase::Idle => post.phase is Idle,
            Phase::Pending { .. } => post.phase is Idle,
            Phase::Querying { term: t, generation: g, buffered: _ } => match post.phase {
                Phase::Querying { term: t2, generation: g2, buffered } => {
                    t2 == t && g2 == g && buffered is None
                },
                _ => false,
            },
        }
    } else {
        &&& same_but_phase_outcomes(pre, post)
        &&& post.outcomes == pre.outcomes
        &&& match pre.phase {
            // Most recent wins: a pending term is replaced and the debounce
            // timer restarts.
            Phase::Idle | Phase::Pending { .. } => match post.phase {
                Phase::Pending { term: t, generation: g, deadline } => {
                    t@ == term && g == generation && deadline == now + pre.debounce_ms
                },
                _ => false,
            },
            // The in-flight call is not cancelled; the new term waits behind
            // it, replacing any earlier buffered term.
            Phase::Querying { term: t, generation: g, buffered: _ } => match post.phase {
                Phase::Querying { term: t2, generation: g2, buffered } => {
                    t2 == t && g2 == g && (match buffered {
                        Some((bt, bg)) => bt@ == term && bg == generation,
                        None => false,
                    })
                },
                _ => false,
            },
        }
    }
}

/// What `tick` at time `now` does, and when it hands out a request.
pub open spec fn tick_rel(
    pre: Coordinator,
    post: Coordinator,
    now: u64,
    req: Option<SearchRequest>,
) -> bool {
    match pre.phase {
        Phase::Pending { term, generation, deadline } => {
            if !pre.stopped && now >= deadline {
                if pre.last_queried matches Some(q) && q@ == term@ {
                    // Repeating the most recently queried term issues no new
                    // call.
                    post == (Coordinator { phase: Phase::Idle, ..pre }) && req is None
                } else {
                    &&& post.debounce_ms == pre.debounce_ms
                    &&& post.stopped == pre.stopped
                    &&& post.outcomes == pre.outcomes
                    &&& match post.phase {
                        Phase::Querying { term: t2, generation: g2, buffered } => {
                            t2@ == term@ && g2 == generation && buffered is None
                        },
                        _ => false,
                    }
                    &&& match post.last_queried {
                        Some(q) => q@ == term@,
                        None => false,
                    }
                    &&& match req {
                        Some(r) => r.term@ == term@ && r.generation == generation,
                        None => false,
                    }
                }
            } else {
                post == pre && req is None
            }
        },
        _ => post == pre && req is None,
    }
}

/// What `deliver(outcome)` at time `now` does: the outcome joins the queue,
/// and a buffered term (if any, and if not stopped) becomes pending with a
/// fresh debounce deadline.
pub open spec fn deliver_rel(
    pre: Coordinator,
    post: Coordinator,
    outcome: SearchOutcome,
    now: u64,
) -> bool {
    &&& post.debounce_ms == pre.debounce_ms
    &&& post.last_queried == pre.last_queried
    &&& post.stopped == pre.stopped
    &&& post.outcomes@ == pre.outcomes@.push(outcome)
    &&& match pre.phase {
        Phase::Querying { term: _, generation: _, buffered } => {
            match buffered {
                Some((bt, bg)) => {
                    if pre.stopped {
                        post.phase is Idle
                    } else {
                        post.phase matches Phase::Pending { term, generation, deadline }
                            && term == bt && generation == bg && deadline == now
                            + pre.debounce_ms
                    }
                },
                None => post.phase is Idle,
            }
        },
        _ => post.phase == pre.phase,
    }
}

impl Coordinator {
    /// A fresh, idle coordinator.
    pub fn new(debounce_ms: u64) -> (c: Coordinator)
        ensures
            c.phase is Idle,
            c.debounce_ms == debounce_ms,
            c.last_queried is None,
            c.outcomes@.len() == 0,
            !c.stopped,
    {
        Coordinator {
            phase: Phase::Idle,
            debounce_ms,
            last_queried: None,
            outcomes: Vec::new(),
            stopped: false,
        }
    }

    /// Takes a typed term. Non-blocking, never refused; a not-yet-dispatched
    /// pending term is overwritten (most recent wins).
    pub fn submit(&mut self, term: String, generation: u64, now: u64)
        requires
            now + old(self).debounce_ms <= u64::MAX,
        ensures
            submit_rel(*old(self), *final(self), term@, generation, now),
    {
        if self.stopped {
            return ;
        }
        if term.as_str().is_empty() {
            self.outcomes.push(SearchOutcome { generation, result: Ok(Vec::new()) });
            proof {
                assert(self.outcomes@.drop_last() =~= old(self).outcomes@);
            }
            let next_phase = match &self.phase {
                Phase::Idle => Phase::Idle,
                Phase::Pending { .. } => Phase::Idle,
                Phase::Querying { term: t, generation: g, buffered: _ } => Phase::Querying {
                    term: t.clone(),
                    generation: *g,
                    buffered: None,
                },
            };
            self.phase = next_phase;
        } else {
            let next_phase = match &self.phase {
                Phase::Idle => Phase::Pending {
                    term,
                    generation,
                    deadline: now + self.debounce_ms,
                },
                Phase::Pending { .. } => Phase::Pending {
                    term,
                    generation,
                    deadline: now + self.debounce_ms,
                },
                Phase::Querying { term: t, generation: g, buffered: _ } => Phase::Querying {
                    term: t.clone(),
                    generation: *g,
                    buffered: Some((term, generation)),
                },
            };
            self.phase = next_phase;
        }
    }

    /// Fires the debounce timer: when a pending term's deadline has passed,
    /// hands out the request to run, or quietly returns to idle when the
    /// term repeats the last query.
    pub fn tick(&mut self, now: u64) -> (req: Option<SearchRequest>)
        ensures
            tick_rel(*old(self), *final(self), now, req),
    {
        if self.stopped {
            return None;
        }
        let due: Option<(String, u64)> = match &self.phase {
            Phase::Pending { term, generation, deadline } => {
                if now >= *deadline {
                    Some((term.clone(), *generation))
                } else {
                    None
                }
            },
            _ => None,
        };
        match due {
            None => None,
            Some((t, g)) => {
                let repeat = match &self.last_queried {
                    Some(q) => str_eq(q.as_str(), t.as_str()),
                    None => false,
                };
                if repeat {
                    self.phase = Phase::Idle;
                    None
                } else {
                    self.phase = Phase::Querying {
                        term: t.clone(),
                        generation: g,
                        buffered: None,
                    };
                    self.last_queried = Some(t.clone());
                    Some(SearchRequest { term: t, generation: g })
                }
            },
        }
    }

    /// Takes a completed backend call. The outcome is queued whatever it is
    /// — errors are delivered, never dropped — and a buffered term becomes
    /// the next pending one.
    pub fn deliver(&mut self, outcome: SearchOutcome, now: u64)
        requires
            old(self).phase is Querying,
            now + old(self).debounce_ms <= u64::MAX,
        ensures
            deliver_rel(*old(self), *final(self), outcome, now),
    {
        self.outcomes.push(outcome);
        let next_phase = match &self.phase {
            Phase::Querying { term: _, generation: _, buffered } => {
                match buffered {
                    Some((bt, bg)) => {
                        if self.stopped {
                            Phase::Idle
                        } else {
                            Phase::Pending {
                                term: bt.clone(),
                                generation: *bg,
                                deadline: now + self.debounce_ms,
                            }
                        }
                    },
                    None => Phase::Idle,
                }
            },
            _ => Phase::Idle,
        };
        self.phase = next_phase;
    }

    /// Hands out the oldest undrained outcome, if any. Non-blocking.
    pub fn poll(&mut self) -> (r: Option<SearchOutcome>)
        ensures
            old(self).outcomes@.len() == 0 ==> r is None && *final(self) == *old(self),
            old(self).outcomes@.len() > 0 ==> {
                &&& r matches Some(o) && o == old(self).outcomes@[0]
                &&& final(self).outcomes@ == old(self).outcomes@.drop_first()
                &&& final(self).phase == old(self).phase
                &&& final(self).debounce_ms == old(self).debounce_ms
                &&& final(self).last_queried == old(self).last_queried
                &&& final(self).stopped == old(self).stopped
            },
    {
        if self.outcomes.len() == 0 {
            None
        } else {
            let o = self.outcomes.remove(0);
            proof {
                assert(self.outcomes@ =~= old(self).outcomes@.drop_first());
            }
            Some(o)
        }
    }

    /// After this, no further submission leads to a backend call; an outcome
    /// already in flight may still be delivered.
    pub fn stop(&mut self)
        ensures
            *final(self) == (Coordinator { stopped: true, ..*old(self) }),
    {
        self.stopped = true;
    }
}

// ---------------------------------------------------------------------------
// Laws.
// ---------------------------------------------------------------------------

/// Terms submitted in quick succession — each before the previous one's
/// debounce interval has elapsed — cause at most one backend query, and the
/// query that can fire carries the last of the terms. Between the
/// submissions the timer cannot fire at all.
pub proof fn lemma_debounce_coalesces(
    c0: Coordinator,
    c1: Coordinator,
    c2: Coordinator,
    c3: Coordinator,
    a: Seq<char>,
    b: Seq<char>,
    d: Seq<char>,
    g1: u64,
    g2: u64,
    g3: u64,
    n1: u64,
    n2: u64,
    n3: u64,
)
    requires
        !c0.stopped,
        c0.phase is Idle,
        a.len() > 0,
        b.len() > 0,
        d.len() > 0,
        submit_rel(c0, c1, a, g1, n1),
        submit_rel(c1, c2, b, g2, n2),
        submit_rel(c2, c3, d, g3, n3),
        n1 <= n2 < n1 + c0.debounce_ms,
        n2 <= n3 < n2 + c0.debounce_ms,
    ensures
        // the timer cannot fire between the first submission and the third
        forall|p: Coordinator, t: u64, req: Option<SearchRequest>|
            n1 <= t <= n2 && #[trigger] tick_rel(c1, p, t, req) ==> p == c1 && req is None,
        forall|p: Coordinator, t: u64, req: Option<SearchRequest>|
            n2 <= t <= n3 && #[trigger] tick_rel(c2, p, t, req) ==> p == c2 && req is None,
        // the one query that can fire afterwards carries the last term
        forall|p: Coordinator, t: u64, req: Option<SearchRequest>|
            #[trigger] tick_rel(c3, p, t, req) ==> (match req {
                Some(r) => r.term@ == d && r.generation == g3 && t >= n3 + c0.debounce_ms,
                None => true,
            }),
{
}

/// A submitted empty term yields an immediate empty success for its
/// generation and never becomes a backend query.
pub proof fn lemma_empty_term_short_circuits(
    pre: Coordinator,
    post: Coordinator,
    generation: u64,
    now: u64,
)
    requires
        !pre.stopped,
        submit_rel(pre, post, Seq::<char>::empty(), generation, now),
    ensures
        post.outcomes@.len() == pre.outcomes@.len() + 1,
        post.outcomes@.last().generation == generation,
        post.outcomes@.last().result matches Ok(v) && v@.len() == 0,
        forall|p: Coordinator, t: u64, req: Option<SearchRequest>|
            #[trigger] tick_rel(post, p, t, req) ==> req is None,
{
}

/// A completed call's outcome — an error as much as a success — is always
/// queued for the controller, and taking it does not stop the coordinator
/// from handling further terms.
pub proof fn lemma_outcomes_never_dropped(
    pre: Coordinator,
    post: Coordinator,
    outcome: SearchOutcome,
    now: u64,
)
    requires
        deliver_rel(pre, post, outcome, now),
    ensures
        post.outcomes@.len() == pre.outcomes@.len() + 1,
        post.outcomes@.last() == outcome,
        post.stopped == pre.stopped,
{
}

/// Once stopped, a coordinator never hands out a request again, whatever is
/// submitted or delivered.
pub proof fn lemma_stop_quiesces(c: Coordinator)
    requires
        c.stopped,
    ensures
        forall|p: Coordinator, t: u64, req: Option<SearchRequest>|
            #[trigger] tick_rel(c, p, t, req) ==> req is None && p == c,
        forall|p: Coordinator, s: Seq<char>, g: u64, t: u64|
            #[trigger] submit_rel(c, p, s, g, t) ==> p.stopped,
        forall|p: Coordinator, o: SearchOutcome, t: u64|
            #[trigger] deliver_rel(c, p, o, t) ==> p.stopped,
{
}

} // verus!
