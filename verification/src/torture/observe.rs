//! One round of reads: which transforms are asked for, and what a bad one does.

use vstd::prelude::*;

use super::health::Reads;
use super::window::{common, common_window, pick, picked, EdgeWindow};
use super::worker::{check, inconsistent, observed_chain, observed_edge, observer_text, Norm};
use super::{CHAIN, CHAIN_READS, EDGE_READS};
use crate::replay::Pose;
use crate::report::text_of;
use crate::rng::Xorshift64;
use crate::text::signed_digits;

verus! {

/// A transform that is asked for.
#[derive(Debug, Clone, Copy, PartialEq, Eq, Structural)]
pub enum Ask {
    /// Of one edge, by the place of its window among those that were reported.
    Edge { window: usize, at: i64 },
    /// From end to end of the chain.
    Chain { at: i64 },
    /// None.
    Done,
}

/// A round of reads. Each edge that reported a window is asked in it, then the chain in the
/// window that all of them share, where there is one. A bad transform ends the round.
pub struct Observation {
    pub windows: Vec<EdgeWindow>,
    /// Where the chain is asked.
    pub shared: Option<(i64, i64)>,
    /// The window that is asked next; past the last, the chain is.
    pub window: usize,
    /// How often it was asked.
    pub taken: u64,
    /// What was asked and not answered yet.
    pub pending: Ask,
    pub reads: Reads,
    /// What is said of a bad transform.
    pub violation: Option<String>,
}

impl Observation {
    /// How often single edges were asked.
    pub open spec fn edge_asks(self) -> int {
        self.window * EDGE_READS + if self.window < self.windows@.len() {
            self.taken as int
        } else {
            0
        }
    }

    /// How often the chain was asked.
    pub open spec fn chain_asks(self) -> int {
        if self.window < self.windows@.len() {
            0
        } else {
            self.taken as int
        }
    }

    /// How many asks the round still has.
    pub open spec fn left(self) -> int {
        if self.violation is Some {
            0
        } else {
            self.windows@.len() * EDGE_READS - self.edge_asks() + if self.shared is Some {
                CHAIN_READS - self.chain_asks()
            } else {
                0
            }
        }
    }

    /// Every count is of asks that were made, and what is pending was asked.
    pub open spec fn wf(self) -> bool {
        &&& self.windows@.len() <= 4
        &&& forall|i: int| 0 <= i < self.windows@.len() ==> (#[trigger] self.windows@[i]).which < 4
        &&& self.shared is Some ==> self.shared == common(self.windows@)
        &&& self.window <= self.windows@.len()
        &&& self.window < self.windows@.len() ==> self.taken < EDGE_READS
        &&& self.window == self.windows@.len() ==> self.taken <= CHAIN_READS && (self.shared is None
            ==> self.taken == 0)
        &&& self.reads.edge <= self.edge_asks()
        &&& self.reads.chain <= self.chain_asks()
        &&& match self.pending {
            Ask::Edge { window, at } => window < self.windows@.len() && self.reads.edge
                < self.edge_asks() && self.violation is None,
            Ask::Chain { at } => self.reads.chain < self.chain_asks() && self.violation is None,
            Ask::Done => true,
        }
    }

    /// A round before anything was asked. `planned` is whether the chain can be asked at all.
    pub fn new(windows: Vec<EdgeWindow>, planned: bool) -> (r: Observation)
        requires
            windows@.len() <= 4,
            forall|i: int| 0 <= i < windows@.len() ==> (#[trigger] windows@[i]).which < 4,
        ensures
            r.wf(),
            r.windows == windows,
            r.shared == (if planned {
                common(windows@)
            } else {
                None
            }),
            r.window == 0,
            r.taken == 0,
            r.pending is Done,
            r.reads.chain == 0,
            r.reads.edge == 0,
            r.violation is None,
            r.left() == windows@.len() * EDGE_READS + if r.shared is Some {
                CHAIN_READS as int
            } else {
                0
            },
    {
        let shared = if planned {
            common_window(&windows)
        } else {
            None
        };
        Observation {
            windows,
            shared,
            window: 0,
            taken: 0,
            pending: Ask::Done,
            reads: Reads::none(),
            violation: None,
        }
    }

    /// The next transform that is asked for, at a stamp that is drawn from its window.
    pub fn next(&mut self, rng: &mut Xorshift64) -> (r: Ask)
        requires
            old(self).wf(),
        ensures
            final(self).wf(),
            r == final(self).pending,
            r is Done <==> old(self).left() == 0,
            final(self).left() == old(self).left() - if r is Done {
                0int
            } else {
                1int
            },
            final(self).windows == old(self).windows,
            final(self).shared == old(self).shared,
            final(self).reads == old(self).reads,
            final(self).violation == old(self).violation,
            match r {
                Ask::Edge { window, at } => {
                    let w = old(self).windows@[window as int];
                    &&& window == old(self).window
                    &&& window < old(self).windows@.len()
                    &&& (at as int, final(rng).state) == picked(old(rng).state, w.oldest, w.newest)
                    &&& final(self).edge_asks() == old(self).edge_asks() + 1
                },
                Ask::Chain { at } => {
                    &&& old(self).window == old(self).windows@.len()
                    &&& old(self).shared matches Some((lo, hi)) && (at as int, final(rng).state)
                        == picked(old(rng).state, lo, hi)
                    &&& final(self).chain_asks() == old(self).chain_asks() + 1
                },
                Ask::Done => *final(rng) == *old(rng),
            },
    {
        self.pending = Ask::Done;
        if self.violation.is_some() {
            return Ask::Done;
        }
        if self.window < self.windows.len() {
            let window: usize = self.window;
            let w = self.windows[window];
            let at: i64 = pick(rng, w.oldest, w.newest);
            self.taken = self.taken + 1;
            if self.taken == EDGE_READS {
                self.window = self.window + 1;
                self.taken = 0;
            }
            self.pending = Ask::Edge { window, at };
            return self.pending;
        }
        match self.shared {
            None => Ask::Done,
            Some((lo, hi)) => {
                if self.taken == CHAIN_READS {
                    return Ask::Done;
                }
                let at: i64 = pick(rng, lo, hi);
                self.taken = self.taken + 1;
                self.pending = Ask::Chain { at };
                self.pending
            },
        }
    }

    /// What is said of an answer, where it is a bad transform.
    pub open spec fn fault(self, got: Option<(Pose, Norm)>) -> Option<Seq<char>> {
        match (self.pending, got) {
            (Ask::Edge { window, at }, Some((p, norm))) => {
                let which = self.windows@[window as int].which as int;
                match inconsistent(p, norm) {
                    Some(why) => Some(
                        observed_edge(
                            CHAIN@[which].0@,
                            CHAIN@[which].1@,
                            signed_digits(at as int),
                            why,
                        ),
                    ),
                    None => None,
                }
            },
            (Ask::Chain { at }, Some((p, norm))) => match inconsistent(p, norm) {
                Some(why) => Some(observed_chain(signed_digits(at as int), why)),
                None => None,
            },
            _ => None,
        }
    }

    /// The answer to what was asked: the transform and what is checked of its norm, or
    /// nothing where it was declined. One that was declined is not counted.
    pub fn answer(&mut self, got: &Option<(Pose, Norm)>)
        requires
            old(self).wf(),
        ensures
            final(self).wf(),
            final(self).pending is Done,
            final(self).windows == old(self).windows,
            final(self).shared == old(self).shared,
            final(self).window == old(self).window,
            final(self).taken == old(self).taken,
            final(self).reads.edge == old(self).reads.edge + if old(self).pending is Edge && got is Some {
                1int
            } else {
                0int
            },
            final(self).reads.chain == old(self).reads.chain + if old(self).pending is Chain && got is Some {
                1int
            } else {
                0int
            },
            text_of(final(self).violation) == (match old(self).fault(*got) {
                Some(s) => Some(s),
                None => text_of(old(self).violation),
            }),
    {
        let asked = self.pending;
        self.pending = Ask::Done;
        match got {
            None => {},
            Some((p, norm)) => match asked {
                Ask::Done => {},
                Ask::Edge { window, at } => {
                    self.reads.edge = self.reads.edge + 1;
                    let which: usize = self.windows[window].which;
                    match check(p, norm) {
                        Some(why) => {
                            let chain = CHAIN;
                            self.violation = Some(
                                observer_text(Some(chain[which]), at, why.as_str()),
                            );
                        },
                        None => {},
                    }
                },
                Ask::Chain { at } => {
                    self.reads.chain = self.reads.chain + 1;
                    match check(p, norm) {
                        Some(why) => {
                            self.violation = Some(observer_text(None, at, why.as_str()));
                        },
                        None => {},
                    }
                },
            },
        }
    }
}

/// A transform that cannot be a consistent sample is reported, and nothing is asked after
/// it.
pub proof fn law_a_bad_transform_ends_the_round(
    before: Observation,
    got: (Pose, Norm),
    after: Observation,
)
    requires
        before.pending !is Done,
        inconsistent(got.0, got.1) is Some,
        text_of(after.violation) == (match before.fault(Some(got)) {
            Some(s) => Some(s),
            None => text_of(before.violation),
        }),
    ensures
        before.fault(Some(got)) is Some,
        after.violation is Some,
        after.left() == 0,
{
}

/// A round without a bad transform asks every edge that reported a window, and the chain
/// where all of them do and their windows intersect.
pub proof fn law_a_clean_round_asks_everything(o: Observation)
    requires
        o.wf(),
        o.violation is None,
        o.left() == 0,
    ensures
        o.edge_asks() == o.windows@.len() * EDGE_READS,
        o.shared is Some ==> o.chain_asks() == CHAIN_READS,
{
    if o.window < o.windows@.len() {
        assert(o.window * EDGE_READS + EDGE_READS <= o.windows@.len() * EDGE_READS)
            by (nonlinear_arith)
            requires
                o.window + 1 <= o.windows@.len(),
        ;
    }
}

/// Each edge with a window is asked sixteen times, and the chain two hundred and fifty-six times
/// where its windows have an instant in common.
pub proof fn law_how_often_a_round_asks(o: Observation)
    requires
        o.window == 0,
        o.taken == 0,
        o.violation is None,
    ensures
        o.windows@.len() > 0 ==> o.left() == 16 * o.windows@.len() + if o.shared is Some {
            256int
        } else {
            0
        },
{
}

/// A transform is found bad exactly where one was asked for, came back and is inconsistent; what
/// is said names its edge, where it was one, and the instant and the reason.
pub proof fn law_when_a_transform_is_bad(o: Observation, got: Option<(Pose, Norm)>)
    ensures
        o.fault(got) is Some <==> o.pending !is Done && (got matches Some((p, norm))
            && inconsistent(p, norm) is Some),
        o.fault(got) matches Some(said) ==> {
            let (p, norm) = got->0;
            let why = inconsistent(p, norm)->0;
            match o.pending {
                Ask::Edge { window, at } => said == observed_edge(
                    CHAIN@[o.windows@[window as int].which as int].0@,
                    CHAIN@[o.windows@[window as int].which as int].1@,
                    signed_digits(at as int),
                    why,
                ),
                Ask::Chain { at } => said == observed_chain(signed_digits(at as int), why),
                Ask::Done => false,
            }
        },
{
}

} // verus!
