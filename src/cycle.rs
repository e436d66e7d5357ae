//! One update cycle, as a state machine. The caller performs each action it
//! returns (resolve an address, update a record, write the cache) and hands
//! back what came of it; the machine decides what happens next. Each address
//! family is handled on its own: a failure of one does not stop the other.
use vstd::prelude::*;
use crate::cache::{Cache, Ipv4Address, Ipv6Address};

verus! {

/// Where a cycle stands.
#[derive(Clone, Copy, Debug, PartialEq, Eq, Structural)]
pub enum Phase {
    Start,
    ResolvingV4,
    UpdatingV4(Ipv4Address),
    PersistingV4,
    ResolvingV6,
    UpdatingV6(Ipv6Address),
    PersistingV6,
    Finished,
}

/// What became of one address family in a cycle.
#[derive(Clone, Copy, Debug, PartialEq, Eq, Structural)]
pub enum FamilyOutcome {
    /// The family is switched off, or the cycle has not reached it.
    Skipped,
    /// The current address is the cached one: nothing was sent.
    Unchanged,
    /// The record was updated and the cache written.
    Updated,
    /// The record was updated, but writing the cache failed.
    NotPersisted,
    /// Resolving the address or updating the record failed.
    Failed,
}

/// What the caller reports back after performing an action.
#[derive(Clone, Copy, Debug, PartialEq, Eq, Structural)]
pub enum Event {
    /// The timer fired: the cycle begins.
    Tick,
    /// The current public IPv4 address.
    ResolvedV4(Ipv4Address),
    /// The current public IPv6 address.
    ResolvedV6(Ipv6Address),
    /// The requested update or cache write succeeded.
    Succeeded,
    /// The requested action failed.
    Failed,
}

/// What the caller is asked to do next.
#[derive(Clone, Copy, Debug, PartialEq, Eq, Structural)]
pub enum Action {
    ResolveV4,
    ResolveV6,
    /// Point the A record at this address.
    SetV4(Ipv4Address),
    /// Point the AAAA record at this address.
    SetV6(Ipv6Address),
    /// Write this cache to disk.
    Persist(Cache),
    /// The cycle is over.
    Finish,
}

/// The state of one cycle.
#[derive(Clone, Copy, Debug, PartialEq, Eq, Structural)]
pub struct UpdateCycle {
    pub ipv4: bool,
    pub ipv6: bool,
    pub phase: Phase,
    pub cache: Cache,
    pub v4_outcome: FamilyOutcome,
    pub v6_outcome: FamilyOutcome,
}

/// Hands over from IPv4 to IPv6, or ends the cycle when IPv6 is off.
pub open spec fn begin_v6(c: UpdateCycle) -> (UpdateCycle, Action) {
    if c.ipv6 {
        (UpdateCycle { phase: Phase::ResolvingV6, ..c }, Action::ResolveV6)
    } else {
        (UpdateCycle { phase: Phase::Finished, v6_outcome: FamilyOutcome::Skipped, ..c }, Action::Finish)
    }
}

pub open spec fn finish(c: UpdateCycle) -> (UpdateCycle, Action) {
    (UpdateCycle { phase: Phase::Finished, ..c }, Action::Finish)
}

/// The transition of a cycle on an event: the next state and the next action.
/// An event that does not answer the pending action counts as its failure.
pub open spec fn next(c: UpdateCycle, e: Event) -> (UpdateCycle, Action) {
    match c.phase {
        Phase::Start => if c.ipv4 {
            (UpdateCycle { phase: Phase::ResolvingV4, ..c }, Action::ResolveV4)
        } else {
            begin_v6(UpdateCycle { v4_outcome: FamilyOutcome::Skipped, ..c })
        },
        Phase::ResolvingV4 => match e {
            Event::ResolvedV4(a) => if c.cache.v4 == Some(a) {
                begin_v6(UpdateCycle { v4_outcome: FamilyOutcome::Unchanged, ..c })
            } else {
                (UpdateCycle { phase: Phase::UpdatingV4(a), ..c }, Action::SetV4(a))
            },
            _ => begin_v6(UpdateCycle { v4_outcome: FamilyOutcome::Failed, ..c }),
        },
        Phase::UpdatingV4(a) => if e == Event::Succeeded {
            let k = Cache { v4: Some(a), ..c.cache };
            (UpdateCycle { phase: Phase::PersistingV4, cache: k, ..c }, Action::Persist(k))
        } else {
            begin_v6(UpdateCycle { v4_outcome: FamilyOutcome::Failed, ..c })
        },
        Phase::PersistingV4 => if e == Event::Succeeded {
            begin_v6(UpdateCycle { v4_outcome: FamilyOutcome::Updated, ..c })
        } else {
            begin_v6(UpdateCycle { v4_outcome: FamilyOutcome::NotPersisted, ..c })
        },
        Phase::ResolvingV6 => match e {
            Event::ResolvedV6(a) => if c.cache.v6 == Some(a) {
                finish(UpdateCycle { v6_outcome: FamilyOutcome::Unchanged, ..c })
            } else {
                (UpdateCycle { phase: Phase::UpdatingV6(a), ..c }, Action::SetV6(a))
            },
            _ => finish(UpdateCycle { v6_outcome: FamilyOutcome::Failed, ..c }),
        },
        Phase::UpdatingV6(a) => if e == Event::Succeeded {
            let k = Cache { v6: Some(a), ..c.cache };
            (UpdateCycle { phase: Phase::PersistingV6, cache: k, ..c }, Action::Persist(k))
        } else {
            finish(UpdateCycle { v6_outcome: FamilyOutcome::Failed, ..c })
        },
        Phase::PersistingV6 => if e == Event::Succeeded {
            finish(UpdateCycle { v6_outcome: FamilyOutcome::Updated, ..c })
        } else {
            finish(UpdateCycle { v6_outcome: FamilyOutcome::NotPersisted, ..c })
        },
        Phase::Finished => (c, Action::Finish),
    }
}

pub open spec fn is_failure(o: FamilyOutcome) -> bool {
    o == FamilyOutcome::Failed || o == FamilyOutcome::NotPersisted
}

impl UpdateCycle {
    /// A cycle about to begin, with the switches of the settings and the
    /// cache as it stands.
    pub fn new(ipv4: bool, ipv6: bool, cache: Cache) -> (r: UpdateCycle)
        ensures
            r == (UpdateCycle {
                ipv4,
                ipv6,
                phase: Phase::Start,
                cache,
                v4_outcome: FamilyOutcome::Skipped,
                v6_outcome: FamilyOutcome::Skipped,
            }),
    {
        UpdateCycle {
            ipv4,
            ipv6,
            phase: Phase::Start,
            cache,
            v4_outcome: FamilyOutcome::Skipped,
            v6_outcome: FamilyOutcome::Skipped,
        }
    }

    fn to_v6(&mut self) -> (a: Action)
        ensures
            (*final(self), a) == begin_v6(*old(self)),
    {
        if self.ipv6 {
            self.phase = Phase::ResolvingV6;
            Action::ResolveV6
        } else {
            self.phase = Phase::Finished;
            self.v6_outcome = FamilyOutcome::Skipped;
            Action::Finish
        }
    }

    fn to_end(&mut self) -> (a: Action)
        ensures
            (*final(self), a) == finish(*old(self)),
    {
        self.phase = Phase::Finished;
        Action::Finish
    }

    /// Takes the outcome of the last action and returns the next one.
    pub fn step(&mut self, e: Event) -> (a: Action)
        ensures
            (*final(self), a) == next(*old(self), e),
    {
        match self.phase {
            Phase::Start => if self.ipv4 {
                self.phase = Phase::ResolvingV4;
                Action::ResolveV4
            } else {
                self.v4_outcome = FamilyOutcome::Skipped;
                self.to_v6()
            },
            Phase::ResolvingV4 => match e {
                Event::ResolvedV4(a) => {
                    let same = match self.cache.v4 {
                        Some(old) => old.bits == a.bits,
                        None => false,
                    };
                    if same {
                        self.v4_outcome = FamilyOutcome::Unchanged;
                        self.to_v6()
                    } else {
                        self.phase = Phase::UpdatingV4(a);
                        Action::SetV4(a)
                    }
                },
                _ => {
                    self.v4_outcome = FamilyOutcome::Failed;
                    self.to_v6()
                },
            },
            Phase::UpdatingV4(a) => if let Event::Succeeded = e {
                self.cache.v4 = Some(a);
                self.phase = Phase::PersistingV4;
                Action::Persist(self.cache)
            } else {
                self.v4_outcome = FamilyOutcome::Failed;
                self.to_v6()
            },
            Phase::PersistingV4 => {
                if let Event::Succeeded = e {
                    self.v4_outcome = FamilyOutcome::Updated;
                } else {
                    self.v4_outcome = FamilyOutcome::NotPersisted;
                }
                self.to_v6()
            },
            Phase::ResolvingV6 => match e {
                Event::ResolvedV6(a) => {
                    let same = match self.cache.v6 {
                        Some(old) => old.bits == a.bits,
                        None => false,
                    };
                    if same {
                        self.v6_outcome = FamilyOutcome::Unchanged;
                        self.to_end()
                    } else {
                        self.phase = Phase::UpdatingV6(a);
                        Action::SetV6(a)
                    }
                },
                _ => {
                    self.v6_outcome = FamilyOutcome::Failed;
                    self.to_end()
                },
            },
            Phase::UpdatingV6(a) => if let Event::Succeeded = e {
                self.cache.v6 = Some(a);
                self.phase = Phase::PersistingV6;
                Action::Persist(self.cache)
            } else {
                self.v6_outcome = FamilyOutcome::Failed;
                self.to_end()
            },
            Phase::PersistingV6 => {
                if let Event::Succeeded = e {
                    self.v6_outcome = FamilyOutcome::Updated;
                } else {
                    self.v6_outcome = FamilyOutcome::NotPersisted;
                }
                self.to_end()
            },
            Phase::Finished => Action::Finish,
        }
    }

    /// Whether some family failed in this cycle.
    pub fn failed(&self) -> (r: bool)
        ensures
            r == (is_failure(self.v4_outcome) || is_failure(self.v6_outcome)),
    {
        let f4 = match self.v4_outcome {
            FamilyOutcome::Failed | FamilyOutcome::NotPersisted => true,
            _ => false,
        };
        let f6 = match self.v6_outcome {
            FamilyOutcome::Failed | FamilyOutcome::NotPersisted => true,
            _ => false,
        };
        f4 || f6
    }
}

/// Phases in which the IPv4 record has been dealt with for this cycle.
pub open spec fn past_v4(p: Phase) -> bool {
    match p {
        Phase::PersistingV4 | Phase::ResolvingV6 | Phase::UpdatingV6(_) | Phase::PersistingV6
        | Phase::Finished => true,
        _ => false,
    }
}

/// When the resolved IPv4 address equals the cached one, no update is
/// requested and the cache stays as it is.
pub proof fn lemma_unchanged_v4_sends_nothing(c: UpdateCycle, a: Ipv4Address)
    requires
        c.phase == Phase::ResolvingV4,
        c.cache.v4 == Some(a),
    ensures
        ({
            let (c2, act) = next(c, Event::ResolvedV4(a));
            &&& !(act is SetV4) && !(act is SetV6) && !(act is Persist)
            &&& c2.cache == c.cache
            &&& c2.v4_outcome == FamilyOutcome::Unchanged
            &&& past_v4(c2.phase)
        }),
{
}

/// When the resolved IPv6 address equals the cached one, no update is
/// requested and the cache stays as it is.
pub proof fn lemma_unchanged_v6_sends_nothing(c: UpdateCycle, a: Ipv6Address)
    requires
        c.phase == Phase::ResolvingV6,
        c.cache.v6 == Some(a),
    ensures
        ({
            let (c2, act) = next(c, Event::ResolvedV6(a));
            &&& act == Action::Finish
            &&& c2.cache == c.cache
            &&& c2.v6_outcome == FamilyOutcome::Unchanged
        }),
{
}

/// A resolved IPv4 address that differs from the cached one (or an empty
/// cache) asks for one update to that address; once it succeeds, the cache
/// holds the new address and is to be written with it; after that no
/// further IPv4 update is asked for in the cycle, whatever is reported.
pub proof fn lemma_changed_v4_updates_once(c: UpdateCycle, a: Ipv4Address)
    requires
        c.phase == Phase::ResolvingV4,
        c.cache.v4 != Some(a),
    ensures
        ({
            let (c2, act) = next(c, Event::ResolvedV4(a));
            let (c3, act3) = next(c2, Event::Succeeded);
            &&& act == Action::SetV4(a)
            &&& c2.cache == c.cache
            &&& c3.cache == (Cache { v4: Some(a), v6: c.cache.v6 })
            &&& act3 == Action::Persist(c3.cache)
            &&& past_v4(c3.phase)
        }),
{
}

/// The IPv6 counterpart: one update to the new address, then the cache
/// holds it and is to be written with it.
pub proof fn lemma_changed_v6_updates_once(c: UpdateCycle, a: Ipv6Address)
    requires
        c.phase == Phase::ResolvingV6,
        c.cache.v6 != Some(a),
    ensures
        ({
            let (c2, act) = next(c, Event::ResolvedV6(a));
            let (c3, act3) = next(c2, Event::Succeeded);
            &&& act == Action::SetV6(a)
            &&& c2.cache == c.cache
            &&& c3.cache == (Cache { v4: c.cache.v4, v6: Some(a) })
            &&& act3 == Action::Persist(c3.cache)
            &&& c3.phase == Phase::PersistingV6
            &&& next(c3, Event::Succeeded).1 == Action::Finish
            &&& next(c3, Event::Failed).1 == Action::Finish
        }),
{
}

/// Once the IPv4 record has been dealt with, no event leads to another IPv4
/// update in the same cycle.
pub proof fn lemma_v4_update_not_repeated(c: UpdateCycle, e: Event)
    requires
        past_v4(c.phase),
    ensures
        past_v4(next(c, e).0.phase),
        !(next(c, e).1 is SetV4),
{
}

/// A failed IPv4 update leaves the cache as it was, asks for no write, and
/// the cycle goes on with IPv6 (or ends).
pub proof fn lemma_failed_v4_update_keeps_cache(c: UpdateCycle, a: Ipv4Address, e: Event)
    requires
        c.phase == Phase::UpdatingV4(a),
        e != Event::Succeeded,
    ensures
        ({
            let (c2, act) = next(c, e);
            &&& c2.cache == c.cache
            &&& c2.v4_outcome == FamilyOutcome::Failed
            &&& act == (if c.ipv6 { Action::ResolveV6 } else { Action::Finish })
        }),
{
}

/// A failed IPv6 update leaves the cache as it was, asks for no write, and
/// ends the cycle.
pub proof fn lemma_failed_v6_update_keeps_cache(c: UpdateCycle, a: Ipv6Address, e: Event)
    requires
        c.phase == Phase::UpdatingV6(a),
        e != Event::Succeeded,
    ensures
        ({
            let (c2, act) = next(c, e);
            &&& c2.cache == c.cache
            &&& c2.v6_outcome == FamilyOutcome::Failed
            &&& act == Action::Finish
        }),
{
}

/// The cache changes only when the authority has confirmed an update, and
/// then only the updated family, to the address that was sent.
pub proof fn lemma_cache_follows_confirmed_updates(c: UpdateCycle, e: Event)
    ensures
        ({
            let c2 = next(c, e).0;
            c2.cache != c.cache ==> e == Event::Succeeded && match c.phase {
                Phase::UpdatingV4(a) => c2.cache == (Cache { v4: Some(a), v6: c.cache.v6 }),
                Phase::UpdatingV6(a) => c2.cache == (Cache { v4: c.cache.v4, v6: Some(a) }),
                _ => false,
            }
        }),
{
}

/// Phases in which the IPv6 record has been dealt with for this cycle.
pub open spec fn past_v6(p: Phase) -> bool {
    p == Phase::PersistingV6 || p == Phase::Finished
}

/// Once the IPv6 record has been dealt with, no event leads to another
/// update of either family in the same cycle.
pub proof fn lemma_v6_update_not_repeated(c: UpdateCycle, e: Event)
    requires
        past_v6(c.phase),
    ensures
        past_v6(next(c, e).0.phase),
        !(next(c, e).1 is SetV6),
        !(next(c, e).1 is SetV4),
{
}

/// An upper bound on the steps a cycle still takes before it finishes.
pub open spec fn steps_left(p: Phase) -> nat {
    match p {
        Phase::Start => 7,
        Phase::ResolvingV4 => 6,
        Phase::UpdatingV4(_) => 5,
        Phase::PersistingV4 => 4,
        Phase::ResolvingV6 => 3,
        Phase::UpdatingV6(_) => 2,
        Phase::PersistingV6 => 1,
        Phase::Finished => 0,
    }
}

/// Every cycle ends, whatever is reported back: each step either finishes
/// the cycle or brings it closer to its end, and a finished cycle asks for
/// nothing more.
pub proof fn lemma_cycle_ends(c: UpdateCycle, e: Event)
    ensures
        next(c, e).0.phase == Phase::Finished || steps_left(next(c, e).0.phase) < steps_left(
            c.phase,
        ),
        next(c, e).0.phase == Phase::Finished <==> next(c, e).1 == Action::Finish,
        c.phase == Phase::Finished ==> next(c, e) == (c, Action::Finish),
{
}

} // verus!
