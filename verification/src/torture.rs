//! The rules of the crash-torture run.
//!
//! Processes join one shared arena and hammer it while a driver kills one of them after
//! another, the owner of the rendezvous among them. Forking, signals, files and the arena
//! itself are outside. What is here is what they decide by: whom the driver may kill and
//! when, what a migration of the owner's role owes, what counts as a live arena, what must
//! have been reclaimed at the end, and the verdict.

use vstd::prelude::*;

pub mod args;
pub mod crash;
pub mod driver;
pub mod health;
pub mod join;
pub mod ledgers;
pub mod migration;
pub mod observe;
pub mod population;
pub mod reap;
pub mod recovery;
pub mod turn;
pub mod verdict;
pub mod window;
pub mod worker;

verus! {

/// The prefix of every diagnostic line.
pub const DIAG: &'static str = "shm_torture: [diag]";

/// The exit code of a child that saw a bad transform.
pub const EXIT_VIOLATION: i32 = 3;

/// The fewest composed reads that a round must validate.
pub const MIN_CHAIN_READS_PER_ROUND: u64 = 16;

/// The fewest single-edge reads that a round must validate.
pub const MIN_EDGE_READS_PER_ROUND: u64 = 8;

/// Composed reads that a round attempts.
pub const CHAIN_READS: u64 = 256;

/// Single-edge reads that a round attempts on each edge.
pub const EDGE_READS: u64 = 16;

/// When the first owner kill is due, in nanoseconds from the start.
pub const OWNER_KILL_FIRST_NS: u128 = 4_000_000_000;

/// How long a migration is given, in nanoseconds.
pub const OWNER_RECOVERY_DEADLINE_NS: u128 = 10_000_000_000;

/// Operations that one attachment performs before it detaches.
pub const OPS_PER_ATTACHMENT: u32 = 2_000;

/// How many times the operation cap is extended for the process that serves the
/// rendezvous.
pub const MAX_OWNER_CAP_EXTENSIONS: u32 = 10;

/// The attached population below which the ordinary draw takes nobody: the role holder,
/// one heir, and the victim.
pub const MIN_ATTACHED_FOR_ORDINARY_KILL: u64 = 3;

/// How many intervals a scheduled owner kill may stay deferred.
pub const OWNER_KILL_DEFERRAL_BUDGET_INTERVALS: u128 = 3;

/// How soon a deferred owner kill is tried again, in nanoseconds.
pub const OWNER_KILL_DEFERRAL_RETRY_NS: u128 = 250_000_000;

/// The shortest that a deferral budget may be, in nanoseconds.
pub const MIN_OWNER_KILL_DEFERRAL_BUDGET_NS: u128 = 1_000_000_000;

/// How often the observer reads while a migration is in flight, in nanoseconds.
pub const MIGRATION_OBSERVE_EVERY_NS: u128 = 5_000_000;

/// The edges of the topology: one chain, so that a lookup from end to end composes all of
/// them.
pub const CHAIN: [(&'static str, &'static str); 4] = [
    ("map", "odom"),
    ("odom", "base"),
    ("base", "arm"),
    ("arm", "tool"),
];

} // verus!
