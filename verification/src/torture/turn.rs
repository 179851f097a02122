//! The order of a driver's round.

use vstd::prelude::*;

verus! {

/// What the driver does next.
#[derive(Debug, Clone, Copy, PartialEq, Eq, Structural)]
pub enum Stage {
    /// Wait for the next round.
    Pause,
    /// Read the arena.
    Observe,
    /// Take the processes off the books that are gone.
    Reap,
    /// Start a worker in every slot that has none.
    Respawn,
    /// Kill the owner, where that is due.
    OwnerKill,
    /// Kill a worker.
    Draw,
    /// The rounds are over.
    Over,
}

/// What comes after a stage. A bad transform ends the rounds before anybody else is killed,
/// and so does an arena that cannot recover.
pub open spec fn following(stage: Stage, violated: bool, wedged: bool) -> Stage {
    match stage {
        Stage::Pause => Stage::Observe,
        Stage::Observe => Stage::Reap,
        Stage::Reap => if violated {
            Stage::Over
        } else {
            Stage::Respawn
        },
        Stage::Respawn => Stage::OwnerKill,
        Stage::OwnerKill => if violated || wedged {
            Stage::Over
        } else {
            Stage::Draw
        },
        Stage::Draw => Stage::Pause,
        Stage::Over => Stage::Over,
    }
}

/// The rounds of a driver, up to a time.
pub struct Rounds {
    pub stage: Stage,
    pub deadline: u128,
}

impl Rounds {
    /// What to do at a time: a round begins only before the deadline, and one that began is
    /// finished.
    pub open spec fn at(self, now: u128) -> Stage {
        if self.stage is Pause && now >= self.deadline {
            Stage::Over
        } else {
            self.stage
        }
    }

    pub fn new(deadline: u128) -> (r: Rounds)
        ensures
            r == (Rounds { stage: Stage::Pause, deadline }),
    {
        Rounds { stage: Stage::Pause, deadline }
    }

    /// What to do at a time.
    pub fn next(&self, now: u128) -> (r: Stage)
        ensures
            r == self.at(now),
    {
        if self.stage == Stage::Pause && now >= self.deadline {
            Stage::Over
        } else {
            self.stage
        }
    }

    /// A stage was done; whether a bad transform has been seen by then, and whether the arena
    /// cannot recover.
    pub fn done(&mut self, violated: bool, wedged: bool)
        ensures
            *final(self) == (Rounds {
                stage: following(old(self).stage, violated, wedged),
                ..*old(self)
            }),
    {
        self.stage = match self.stage {
            Stage::Pause => Stage::Observe,
            Stage::Observe => Stage::Reap,
            Stage::Reap => if violated {
                Stage::Over
            } else {
                Stage::Respawn
            },
            Stage::Respawn => Stage::OwnerKill,
            Stage::OwnerKill => if violated || wedged {
                Stage::Over
            } else {
                Stage::Draw
            },
            Stage::Draw => Stage::Pause,
            Stage::Over => Stage::Over,
        };
    }
}

/// The stage after so many, where `violated` and `wedged` say of each whether a bad
/// transform had been seen by its end, and whether the arena could not recover.
pub open spec fn stage_after(violated: Seq<bool>, wedged: Seq<bool>, n: nat) -> Stage
    decreases n,
{
    if n == 0 {
        Stage::Pause
    } else {
        following(
            stage_after(violated, wedged, (n - 1) as nat),
            violated[n - 1],
            wedged[n - 1],
        )
    }
}

/// Nobody is killed once a bad transform has been found: what is known of it is still there
/// to be looked at. It is found in stage `k`, by the reads, by the exit of a worker or by
/// the reads of an owner kill.
pub proof fn law_nobody_is_killed_after_a_violation(
    violated: Seq<bool>,
    wedged: Seq<bool>,
    k: nat,
    n: nat,
)
    requires
        k < n,
        forall|i: int| k <= i < n ==> violated[i],
        ({
            let found = stage_after(violated, wedged, k);
            found is Observe || found is Reap || found is OwnerKill
        }),
    ensures
        stage_after(violated, wedged, n) is Over || stage_after(violated, wedged, n) is Reap,
    decreases n,
{
    assert(violated[n - 1]);
    if k + 1 < n {
        law_nobody_is_killed_after_a_violation(violated, wedged, k, (n - 1) as nat);
    }
}

/// Every kill of a worker stands in a round that read the arena, took the dead off the
/// books, replaced them and saw to the owner first.
pub proof fn law_a_draw_ends_a_full_round(violated: Seq<bool>, wedged: Seq<bool>, n: nat)
    requires
        stage_after(violated, wedged, n) is Draw,
    ensures
        n >= 5,
        stage_after(violated, wedged, (n - 1) as nat) is OwnerKill,
        stage_after(violated, wedged, (n - 2) as nat) is Respawn,
        stage_after(violated, wedged, (n - 3) as nat) is Reap,
        stage_after(violated, wedged, (n - 4) as nat) is Observe,
        stage_after(violated, wedged, (n - 5) as nat) is Pause,
        !violated[n - 1] && !wedged[n - 1] && !violated[n - 3],
{
    reveal_with_fuel(stage_after, 6);
}

/// A round goes through its stages in their order, and is cut short only by a bad transform or
/// where no kill can be made any more; no round begins after the deadline.
pub proof fn law_the_order_of_a_round(violated: bool, wedged: bool, r: Rounds, now: u128)
    ensures
        following(Stage::Pause, violated, wedged) is Observe,
        following(Stage::Observe, violated, wedged) is Reap,
        following(Stage::Reap, violated, wedged) == (if violated {
            Stage::Over
        } else {
            Stage::Respawn
        }),
        following(Stage::Respawn, violated, wedged) is OwnerKill,
        following(Stage::OwnerKill, violated, wedged) is Draw <==> !violated && !wedged,
        following(Stage::OwnerKill, violated, wedged) is Over <==> violated || wedged,
        following(Stage::Draw, violated, wedged) is Pause,
        following(Stage::Over, violated, wedged) is Over,
        r.at(now) is Over <==> r.stage is Over || (r.stage is Pause && now >= r.deadline),
        r.at(now) !is Over ==> r.at(now) == r.stage,
{
}

} // verus!
