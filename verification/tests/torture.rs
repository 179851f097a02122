//! The crash-torture run: arguments, ledgers, windows, kills and the verdict.

use tf_tree_bench::number::Number;
use tf_tree_bench::replay::Pose;
use tf_tree_bench::rng::Xorshift64;
use tf_tree_bench::torture::args::{parse_duration, Args, Refusal, Unit, Word, USAGE};
use tf_tree_bench::torture::crash::{
    armed_site, core_dump_warning, core_rlimit_columns, find_row, host_diag, site_of, CrashLedger,
};
use tf_tree_bench::torture::driver::{
    deferral_budget, exit_violation, no_owner_text, owner_attempt_text, ChildSpec, Draw, Driver,
    Finding, Situation, OWNER_ATTEMPTS,
};
use tf_tree_bench::torture::health::{Health, HealthTexts, Reads, RoundHealth};
use tf_tree_bench::torture::join::{
    claimed_line, may_claim, slow_join_budget_line, JoinEpisode, JoinTexts, SLOW_JOIN_NS,
};
use tf_tree_bench::torture::ledgers::{
    attachments, detach_skip_count, inheritance_count, last_pid, ledger_pids, marker_pid,
    proc_brief, proc_core_dumping, trigger_tally, trigger_tally_line, RoleAtReap, RoleLedgers,
    Trigger, NO_TRIGGER,
};
use tf_tree_bench::torture::migration::{
    victim_of, Decision, Migration, Step, Vacancy, Victim,
};
use tf_tree_bench::torture::observe::{Ask, Observation};
use tf_tree_bench::torture::population::{
    census, dead_participant_slots, living_slots, population_diag, seen_list, KidSeen, Population, SlotSeen,
};
use tf_tree_bench::torture::reap::{reap_diag, stamp_text, DumpPoll, Reap, SIGABRT, SIGKILL};
use tf_tree_bench::torture::recovery::{
    collector_pinned, current_owner, first_to_go, outstanding, still_dead, unreachable_by_hangup,
    Recovery,
};
use tf_tree_bench::torture::turn::{Rounds, Stage};
use tf_tree_bench::torture::verdict::{Closing, End};
use tf_tree_bench::torture::window::{common_window, extremes, pick, EdgeWindow};
use tf_tree_bench::torture::worker::{
    act, backoff_ms, check, corrupt, judge_push, may_leave, observer_text, pace_us, parse_child,
    roll, worker_text, Act, Cap, CapExit, Child, ChildError, Leave, Norm, Op, Pushed, NORM_SLACK,
};

fn num(x: f64) -> Number {
    Number::new(
        x.to_bits(),
        &format!("{x}"),
        &format!("{x:.0}"),
        &format!("{x:.1}"),
        &format!("{x:.3}"),
        &format!("{x:.5}"),
        &format!("{x:.4e}"),
    )
}

fn strings(v: &[&str]) -> Vec<String> {
    v.iter().map(|s| (*s).to_owned()).collect()
}

fn sites() -> Vec<String> {
    strings(&["claim.after_cas", "open.after_bind", "push.before_seq"])
}

fn slot(slot: u32, pid: Option<u32>, alive: bool) -> SlotSeen {
    SlotSeen { slot, pid, alive }
}

// ---------------------------------------------------------------------------

/// A duration in nanoseconds, as a caller with floating point reads it.
fn nanos(s: &str) -> Option<u128> {
    let (n, unit) = parse_duration(s);
    let n: f64 = n.parse().ok()?;
    Some(match unit {
        Unit::Millis => (n * 1e6) as u128,
        Unit::Seconds(k) => (n * k as f64 * 1e9) as u128,
    })
}

fn parse(argv: &[&str], built: bool) -> Result<(Args, bool), Refusal> {
    let read = argv
        .iter()
        .map(|a| Word { duration_ns: nanos(a), rate: a.parse::<f64>().ok().map(num) })
        .collect();
    Args::parse(&strings(argv), &read, built, &sites())
}

fn refusal(argv: &[&str]) -> String {
    match parse(argv, true) {
        Ok(_) => panic!("accepted"),
        Err(e) => e.message().expect("a message"),
    }
}

#[test]
fn durations_have_units() {
    assert_eq!(nanos("250ms"), Some(250_000_000));
    assert_eq!(nanos("30s"), Some(30_000_000_000));
    assert_eq!(nanos("2m"), Some(120_000_000_000));
    assert_eq!(nanos("5"), Some(5_000_000_000));
    assert_eq!(nanos("x"), None);
}

#[test]
fn a_run_is_described_by_its_arguments() {
    let (a, _) = parse(
        &[
            "--duration", "2m", "--children", "8", "--seed", "7", "--kill-hz", "6",
            "--owner-kill-every", "5s", "--readers-only", "--stop-owner-ms", "40",
        ],
        false,
    )
    .ok()
    .unwrap();
    assert_eq!((a.duration_ns, a.children, a.seed), (120_000_000_000, 8, 7));
    assert_eq!(a.kill_hz.plain, "6");
    assert_eq!(a.owner_kill_every_ns, Some(5_000_000_000));
    assert!(a.readers_only && !a.inject && !a.crash_points);
    assert_eq!(a.stop_owner_ms, 40);
    let (a, _) = parse(&["--no-kill-owner"], false).ok().unwrap();
    assert_eq!(a.owner_kill_every_ns, None);
    assert!(USAGE[0].starts_with("usage: shm_torture"));
}

#[test]
fn arguments_that_cannot_be_run_are_refused() {
    assert_eq!(refusal(&["--seed"]), "--seed needs a value");
    match parse(&["--children", "x"], true) {
        Err(e) => {
            assert!(e.message().is_none());
            assert!(matches!(e, Refusal::BadValue { flag, value } if flag == "--children" && value == "x"));
        }
        Ok(_) => panic!("accepted"),
    }
    assert!(refusal(&["--bogus"]).contains("--bogus"));
    assert!(refusal(&["--children", "0"]).contains("--children"));
    assert!(refusal(&["--children", "2"]).contains('2'));
    assert!(refusal(&["--crash-points", "--crash-site", "nope"]).contains("nope"));
    assert!(refusal(&["--crash-site", "open.after_bind"]).starts_with("--crash-site needs"));
    assert!(refusal(&["--kill-hz", "1000"]).contains("1000"));
    assert!(matches!(parse(&["--crash-points"], false), Err(Refusal::NotBuilt)));
    assert!(parse(&["--crash-points"], true).is_ok());
}

// ---------------------------------------------------------------------------

/// The limits of a process as they are printed, with a neighbour on each side of the row.
fn limits(soft: &str, hard: &str) -> String {
    format!(
        "Limit                     Soft Limit           Hard Limit           Units     \n\
         Max file size             unlimited            unlimited            bytes     \n\
         Max core file size        {soft:<20} {hard:<20} bytes     \n\
         Max resident set          unlimited            unlimited            bytes     \n"
    )
}

#[test]
fn the_core_dump_warning_names_only_a_dumping_pipe() {
    let apport = "|/usr/share/apport/apport -p%p -s%s -c%c -d%d -P%P -u%u -g%g -F%F -- %E";
    let coredumpd = "|/usr/lib/systemd/systemd-coredump %P %u %g %s %t \
                     9223372036854775808 %h %d";

    let bare = core_dump_warning(true, apport, &Some(limits("0", "unlimited")));
    assert!(
        bare.as_deref().is_some_and(|w| w.contains("core soft limit of 0")),
        "soft=0 on a pipe dumps, so it must warn: {bare:?}"
    );
    assert!(core_dump_warning(true, coredumpd, &Some(limits("unlimited", "unlimited"))).is_some());
    assert!(
        core_dump_warning(true, coredumpd, &None).is_some(),
        "an unreadable limit cannot be shown to be 1"
    );
    assert!(
        core_dump_warning(true, coredumpd, &Some("Limit Soft Hard\n".to_owned())).is_some(),
        "a limits file with no core row cannot be shown to be 1"
    );
    assert_eq!(core_dump_warning(true, coredumpd, &Some(limits("1", "1"))), None);
    assert_eq!(core_dump_warning(false, apport, &Some(limits("0", "unlimited"))), None);
    assert_eq!(core_dump_warning(true, "core", &Some(limits("0", "unlimited"))), None);
    assert_eq!(
        core_dump_warning(true, coredumpd, &Some(limits("1", "unlimited"))),
        None,
        "soft=1 suppresses a pipe dump whatever the hard limit is"
    );
    let soft0_hard1 = core_dump_warning(true, apport, &Some(limits("0", "1")));
    assert!(
        soft0_hard1.as_deref().is_some_and(|w| w.contains("core soft limit of 0")),
        "soft=0 dumps on a pipe even under hard=1, so it must warn: {soft0_hard1:?}"
    );
}

#[test]
fn the_core_limit_is_read_from_its_row() {
    assert_eq!(
        core_rlimit_columns(&limits("0", "unlimited")),
        Some(("0".to_owned(), "unlimited".to_owned()))
    );
    assert_eq!(core_rlimit_columns("nothing\n"), None);
    assert_eq!(find_row("a: 1\nb: 2\n", "b:").as_deref(), Some(" 2"));
    let d = host_diag("|x", "0", &Some(limits("0", "1")), "6.1", "12.000");
    assert!(d.contains("|x") && d.contains("6.1") && d.contains("12.000"), "{d}");
}

#[test]
fn crash_points_are_armed_by_the_seed() {
    assert_eq!(site_of("open.after_bind:3"), "open.after_bind");
    assert_eq!(site_of("open.after_bind"), "open.after_bind");
    let mut rng = Xorshift64::new(5);
    let mut again = Xorshift64::new(5);
    for _ in 0..50 {
        let a = armed_site(&mut rng, &None, &sites());
        assert_eq!(a, armed_site(&mut again, &None, &sites()));
        if let Some(spec) = a {
            assert!(sites().contains(&site_of(&spec)), "{spec}");
        }
    }
    let forced = Some("open.after_bind:2".to_owned());
    assert_eq!(armed_site(&mut rng, &forced, &sites()), forced);
}

#[test]
fn the_crash_ledger_counts_what_was_armed_and_what_fired() {
    let mut l = CrashLedger { armed: 0, aborted: 0, armed_sites: vec![], fired: vec![] };
    let mut rng = Xorshift64::new(1);
    assert_eq!(l.crash_spec(false, &None, &mut rng, &sites()), None);
    let forced = Some("open.after_bind:2".to_owned());
    assert_eq!(l.crash_spec(true, &forced, &mut rng, &sites()), forced);
    assert_eq!(l.armed, 1);
    l.record_abort(&forced);
    l.record_abort(&None);
    assert_eq!(l.aborted, 2);
    assert_eq!(l.fired, ["open.after_bind"]);
    let text = l.report().join("\n");
    assert!(text.contains("open.after_bind"), "{text}");
}

// ---------------------------------------------------------------------------

#[test]
fn ledgers_hold_one_process_to_a_line() {
    assert_eq!(ledger_pids("12\n x\n 13 \n\n"), [12, 13]);
    assert_eq!(marker_pid(&Some(" 42\n".to_owned())), Some(42));
    assert_eq!(marker_pid(&None), None);
    assert_eq!(marker_pid(&Some("4294967296".to_owned())), None);
    assert_eq!((inheritance_count("1\n\n2\n"), detach_skip_count(".\n.\n")), (2, 2));
    let v = vec![
        ("9".to_owned(), Some("7\n".to_owned())),
        ("x".to_owned(), Some("7".to_owned())),
        ("8".to_owned(), None),
    ];
    assert_eq!(attachments(&v), [(9, 7)]);
}

#[test]
fn triggers_are_tallied_most_frequent_first() {
    let log = "7 contended\n8 inherited\n9 contended\n7 owner-alive\nbroken\n";
    let t = trigger_tally(log);
    assert_eq!(t[0], ("contended".to_owned(), 2));
    assert_eq!(t.len(), 3);
    assert_eq!(trigger_tally_line(log), "contended=2 inherited=1 owner-alive=1");
    assert_eq!(trigger_tally_line(""), NO_TRIGGER);
    for t in [
        Trigger::Inherited,
        Trigger::OwnerAlive,
        Trigger::Contended,
        Trigger::ReadOnly,
        Trigger::NotApplicable,
        Trigger::Other("a b".to_owned()),
        Trigger::Failed("e".to_owned()),
    ] {
        assert!(!t.tag().is_empty());
    }
    assert_eq!(Trigger::Inherited.tag(), "inherited");
    assert_eq!(Trigger::Failed("E".to_owned()).tag(), "err-E");
    assert_eq!(Trigger::Other("X".to_owned()).tag(), "ok-X");
}

#[test]
fn a_role_is_held_by_who_took_it_and_did_not_leave() {
    let l = RoleLedgers { inherited: vec![5, 5, 6], left: vec![5], marker: Some(6) };
    assert!(l.of(5, false).held());
    assert!(l.of(6, false).held());
    assert!(!l.of(7, false).held());
    assert!(l.of(7, true).held());
    assert!(!RoleAtReap::NotAsked.held());
    assert_eq!(
        l.of(6, false).field(6),
        "role=held-at-exit(inherited=1,left-alive=0) marker=names-this-pid"
    );
    assert_eq!(l.of(7, true).field(7), "role=held-at-exit(creating-owner) marker=no-longer-this-pid(now=6)");
    assert_eq!(RoleAtReap::NotAsked.field(7), "role=not-asked");
    let left = RoleLedgers { inherited: vec![5], left: vec![5], marker: None };
    assert!(!left.of(5, false).held());
}

#[test]
fn a_process_is_described_by_its_files() {
    let status = Some("Name:\tx\nState:\tS (sleeping)\nCoreDumping:\t1\n".to_owned());
    assert!(proc_core_dumping(&status));
    assert!(!proc_core_dumping(&Some("CoreDumping:\t0\n".to_owned())));
    assert!(!proc_core_dumping(&None));
    let brief = proc_brief(&status, &Some("futex_wait".to_owned()));
    assert!(brief.contains('S') && brief.contains("futex_wait"), "{brief}");
    assert_eq!(last_pid(&Some("0.1 0.2 0.3 1/99 4242\n".to_owned())), "4242");
    assert!(!last_pid(&None).is_empty());
}

// ---------------------------------------------------------------------------

fn window(which: usize, oldest: i64, newest: i64) -> EdgeWindow {
    EdgeWindow { which, oldest, newest }
}

#[test]
fn four_windows_have_a_common_one_or_not() {
    let ws = vec![window(0, 0, 100), window(1, 10, 90), window(2, 5, 120), window(3, 20, 95)];
    assert_eq!(common_window(&ws), Some((20, 90)));
    let (blocker, laggard) = extremes(&ws);
    assert_eq!((blocker.which, laggard.which), (3, 1));
    let apart = vec![window(0, 0, 10), window(1, 20, 30), window(2, 0, 30), window(3, 0, 30)];
    assert_eq!(common_window(&apart), None);
    assert_eq!(common_window(&ws[..3].to_vec()), None);
    let mut rng = Xorshift64::new(9);
    for _ in 0..100 {
        let t = pick(&mut rng, 20, 90);
        assert!((20..=90).contains(&t), "{t}");
    }
}

fn texts() -> HealthTexts {
    let x = |s: &str| s.to_owned();
    HealthTexts {
        elapsed: x("10"),
        overlap: x("50"),
        overlap_fine: x("50.0"),
        window: x("3"),
        freshest: x("4"),
        freshest_worst: x("9"),
        gap: x("5"),
        gap_worst: x("6"),
        writers: x("2.0"),
        writers_fine: x("2.00"),
        live: x("100"),
    }
}

#[test]
fn a_round_is_live_where_somebody_writes() {
    let mut h = RoundHealth::new();
    assert!(!h.arena_is_live());
    let ws = vec![window(0, 0, 100), window(1, 10, 90), window(2, 5, 120), window(3, 20, 95)];
    h.see_windows(&ws, 130);
    assert!(h.overlap);
    assert_eq!((h.width, h.freshest_age), (70, Some(10)));
    assert!(!h.arena_is_live());
    h.writers_live = 1;
    assert!(h.arena_is_live());
    h.freshest_age = Some(1_000_000_000);
    assert!(!h.arena_is_live());
    let mut apart = RoundHealth::new();
    apart.see_windows(&vec![window(0, 0, 10), window(1, 25, 30), window(2, 0, 30), window(3, 0, 30)], 40);
    assert!(!apart.overlap);
    assert_eq!((apart.gap, apart.laggard, apart.blocker), (15, 0, 1));
    let mut sum = Health::new();
    h.freshest_age = Some(10);
    h.slots_alive = 4;
    sum.add(h);
    sum.add(apart);
    assert_eq!((sum.rounds, sum.overlap, sum.gap_rounds, sum.live_rounds), (2, 1, 1, 1));
    assert_eq!((sum.gap_max, sum.laggard0, sum.slots_alive_min), (15, 1, 0));
    assert_eq!(
        sum.line(&texts()),
        "shm_torture: t=10s rounds=2 composed=0/512 overlap=50% window=3ms freshest=4ms \
         writers=2.0/4 slots=0reg/0alive live=100%"
    );
    let d = sum.diagnosis(&texts());
    assert!(d.starts_with("the four chain windows intersected on 1/2 rounds (50.0%)"), "{d}");
}

#[test]
fn rounds_are_counted_by_kind_in_any_order() {
    let round = |windows: usize, overlap: bool, laggard: usize, alive: u64, age: Option<i64>| {
        let mut h = RoundHealth::new();
        h.windows = windows;
        h.overlap = overlap;
        h.laggard = laggard;
        h.gap = if overlap { 0 } else { 5 + laggard as i64 };
        h.width = if overlap { 9 } else { 0 };
        h.chain_ok = alive;
        h.freshest_age = age;
        h.writers_live = 1;
        h.slots_registered = 2 * alive;
        h.slots_alive = alive;
        h
    };
    let rs = [
        round(4, true, 0, 5, Some(10)),
        round(3, false, 1, 2, None),
        round(4, false, 1, 7, Some(2_000_000_000)),
        round(4, false, 3, 4, Some(20)),
        round(0, false, 0, 9, None),
    ];
    let mut sum = Health::new();
    for r in rs {
        sum.add(r);
    }
    assert_eq!((sum.rounds, sum.short, sum.overlap, sum.gap_rounds), (5, 2, 1, 2));
    assert_eq!((sum.laggard0, sum.laggard1, sum.laggard2, sum.laggard3), (0, 1, 0, 1));
    assert_eq!((sum.live_rounds, sum.freshest_rounds), (2, 3));
    assert_eq!((sum.width_sum, sum.gap_sum, sum.gap_max), (9, 14, 8));
    assert_eq!((sum.freshest_sum, sum.freshest_max), (2_000_000_030, 2_000_000_000));
    assert_eq!((sum.chain_ok, sum.writers_live_sum), (27, 5));
    assert_eq!((sum.slots_alive_min, sum.slots_registered_max), (2, 18));
    for order in [[4, 3, 2, 1, 0], [2, 0, 4, 1, 3], [1, 2, 3, 4, 0]] {
        let mut other = Health::new();
        for i in order {
            other.add(rs[i]);
        }
        assert_eq!(other, sum);
    }
}

#[test]
fn reads_add_up() {
    let mut r = Reads::none();
    r.add(Reads { chain: 3, edge: 4 });
    r.add(Reads { chain: 1, edge: 1 });
    assert_eq!(r.total(), 9);
}

// ---------------------------------------------------------------------------

#[test]
fn a_census_counts_claims_and_slots() {
    let claims = vec![Some(true), Some(false), None, Some(true)];
    let rows = vec![
        slot(0, Some(10), true),
        slot(1, Some(11), true),
        slot(2, Some(12), false),
        slot(3, None, false),
    ];
    let (c, seen) = census(&claims, &rows, 0);
    assert_eq!((c.writers_live, c.writers_dead), (2, 1));
    assert_eq!((c.slots_registered, c.slots_alive), (2, 1));
    assert_eq!(seen, [slot(1, Some(11), true), slot(2, Some(12), false)]);
    assert_eq!(dead_participant_slots(&rows, 0), [slot(2, Some(12), false)]);
    assert_eq!(living_slots(&rows, 0), [1]);
    assert_eq!(living_slots(&rows, 2), [0, 1]);
    assert_eq!(living_slots(&vec![slot(7, None, true), slot(3, None, true)], 9), [7, 3]);
    let mut h = RoundHealth::new();
    h.see_census(c);
    assert_eq!((h.writers_live, h.slots_registered), (2, 2));
    let list = seen_list(&seen, Some(11));
    assert!(list.contains("(driver)"), "{list}");
}

#[test]
fn a_population_is_named_child_by_child() {
    let p = Population {
        what: "at the start".to_owned(),
        stamp: "1.000".to_owned(),
        census_when: "now".to_owned(),
        marker: Some(11),
        driver: 10,
        observer_slot: 0,
    };
    let kids = vec![Some(KidSeen { pid: 11, brief: "S".to_owned() }), None];
    let seen = vec![slot(1, Some(11), true), slot(2, Some(99), true)];
    let d = population_diag(&p, &kids, &None, &seen);
    assert!(d.contains("at the start") && d.contains("11") && d.contains("99"), "{d}");
}

fn reap(signal: Option<i32>, crash_at: Option<&str>) -> Reap {
    Reap {
        site: "here",
        slot: Some(2),
        pid: 77,
        status: "signal: 9".to_owned(),
        signal,
        core_dumped: false,
        crash_at: crash_at.map(str::to_owned),
        dump: DumpPoll::NotPolled,
        stamp: "1.500".to_owned(),
        last_pid: "80".to_owned(),
    }
}

#[test]
fn a_death_that_is_no_ordinary_kill_is_reported() {
    let quiet = RoleLedgers { inherited: vec![], left: vec![], marker: None }.of(77, false);
    assert_eq!(reap_diag(&reap(Some(SIGKILL), None), quiet, None), None);
    let aborted = reap_diag(&reap(Some(SIGABRT), Some("open.after_bind:1")), quiet, None);
    assert!(aborted.is_some_and(|s| s.contains("open.after_bind:1") && s.contains("pid=77")));
    assert_eq!(reap_diag(&reap(Some(SIGKILL), None), quiet, Some("owner-startup")), None);
    let held = RoleLedgers { inherited: vec![], left: vec![], marker: None }.of(77, true);
    let tagged = reap_diag(&reap(Some(SIGKILL), None), held, Some("owner-startup"));
    assert!(tagged.is_some_and(|s| s.contains(" owner-startup") && s.contains("site=here slot=2")));
    let mut dumping = reap(Some(SIGKILL), None);
    dumping.dump = DumpPoll::SeenBefore("12.5".to_owned());
    let seen = reap_diag(&dumping, quiet, None);
    assert!(seen.is_some_and(|s| s.ends_with("dump_seen=12.5ms-before-reap")));
    assert_eq!(stamp_text(12, 34_000_000), "12.034000000");
}

// ---------------------------------------------------------------------------

fn killed(n: usize) -> Migration {
    let mut m = Migration::new(n, true);
    match m.consider(Some(50), 3, vec![], false) {
        Decision::Kill(pid) => assert_eq!(pid, 50),
        _ => panic!("no kill"),
    }
    m.killed(50, "1.0".to_owned(), 2, vec![]);
    m
}

#[test]
fn the_last_heir_is_spared() {
    let mut m = Migration::new(1, true);
    assert!(matches!(m.consider(None, 5, vec![], false), Decision::NoOwner));
    let mut m = Migration::new(1, true);
    assert!(matches!(m.consider(Some(50), 1, vec![], false), Decision::Defer));
    assert!(m.deferred);
    let mut m = Migration::new(1, true);
    assert!(matches!(m.consider(Some(50), 9, vec![], true), Decision::Defer));
    assert!(matches!(victim_of(5, Some(5), &vec![]), Victim::OwnerChild));
    assert!(matches!(victim_of(6, Some(5), &vec![None, Some(6)]), Victim::Worker(1)));
    assert!(matches!(victim_of(7, Some(5), &vec![None, Some(6)]), Victim::Stranger));
}

#[test]
fn a_migration_owes_an_heir_and_reads() {
    let mut m = killed(1);
    let mut v = Vacancy::new();
    assert!(matches!(v.next(0), Step::Observe));
    v.observed(&mut m, Reads { chain: 5, edge: 5 }, 2, false, 0);
    assert!(matches!(v.next(0), Step::Join));
    v.tried(&mut m, true, "12.5".to_owned());
    assert!(matches!(v.next(0), Step::Stop));
    assert_eq!(m.recovered_ms.as_deref(), Some("12.5"));
    assert!(m.evidence(0, 1));
    assert_eq!(m.failure(), None, "{}", m.line());
    assert!(m.line().contains("12.5"), "{}", m.line());

    let stuck = killed(2);
    assert!(stuck.failure().is_some_and(|s| s.contains('2')), "{}", stuck.line());
}

#[test]
fn the_driver_defers_and_then_gives_up() {
    let every: u128 = 8_000_000_000;
    let mut d = Driver::new(Some(every), 0);
    assert!(!d.owner_kill_due(0));
    assert!(d.owner_kill_due(4_000_000_000));
    let budget = deferral_budget(every);
    assert_eq!(budget, 24_000_000_000);
    assert_eq!(deferral_budget(0), 1_000_000_000);
    let mut deferred = Migration::new(1, true);
    assert!(matches!(deferred.consider(Some(50), 1, vec![], false), Decision::Defer));
    assert!(matches!(d.settle(&deferred, 4_000_000_000), Finding::Deferred));
    assert_eq!(d.owner_kills_deferred, 1);
    let end = d.settle(&deferred, 4_000_000_000 + budget + 1);
    assert!(end.is_wedge());
    let s = Situation { tally: "none".to_owned(), owner: None, elapsed: "30".to_owned() };
    assert!(d.wedge_text(&deferred, end, &s).is_some());
    assert!(!d.deferral_text(&deferred, "1", "24", false).is_empty());
    assert!(Driver::new(None, 0).next_owner_kill.is_none());
}

#[test]
fn an_ordinary_draw_spares_the_role_holder_and_a_thin_pool() {
    let mut d = Driver::new(None, 0);
    assert!(matches!(d.draw(2, Some(5), Some(6)), Draw::ThinPool));
    assert!(matches!(d.draw(3, Some(6), Some(6)), Draw::RoleHolder));
    assert!(matches!(d.draw(3, None, Some(6)), Draw::Empty));
    assert!(matches!(d.draw(3, Some(5), Some(6)), Draw::Kill));
    assert_eq!((d.thin_pool_draws_skipped, d.role_holder_draws_skipped), (1, 1));
}

#[test]
fn children_are_started_as_the_run_asks() {
    let (a, _) = parse(&["--inject-violation", "--victim-ballast-mb", "4"], true).ok().unwrap();
    let first = ChildSpec::of(&a, 0);
    let second = ChildSpec::of(&a, 1);
    assert!(first.inject && !second.inject);
    let argv = first.arguments(9);
    assert_eq!(&argv[..3], ["child", "--seed", "9"]);
    match parse_child(&argv[1..].to_vec()) {
        Ok(Child::Worker(w)) => {
            assert_eq!((w.seed, w.inject, w.ballast_mb), (9, true, 4));
        }
        _ => panic!("no worker"),
    }
    assert!(exit_violation(Some(3), 9, false).is_some_and(|s| s.contains('9')));
    assert_eq!(exit_violation(Some(0), 9, false), None);
    assert_eq!(exit_violation(None, 9, false), None);
    assert!(owner_attempt_text(1, "exit 1", &None).contains("exit 1"));
    assert!(no_owner_text("last words").contains("last words"));
    assert_eq!(OWNER_ATTEMPTS, 6);
}

// ---------------------------------------------------------------------------

#[test]
fn every_dead_record_is_judged_once() {
    assert_eq!(current_owner(Some(3), Some(4)), Some(3));
    assert_eq!(current_owner(None, Some(4)), Some(4));
    assert!(collector_pinned(&vec![], Some(4), Some(4)));
    assert!(!collector_pinned(&vec![9], Some(4), Some(4)));
    let dead = vec![slot(1, Some(11), false), slot(2, Some(12), false)];
    assert!(outstanding(&dead, &vec![11]));
    assert!(!outstanding(&dead, &vec![11, 12]));
    let mut r = Recovery::new(true);
    let (exempt, strict) = r.split(&dead, &vec![11], true);
    assert_eq!((exempt, strict), (vec![1], vec![2]));
    assert!(r.failures.is_empty());
    r.leaked(&vec![2], 64);
    assert_eq!(r.failures.len(), 1);
    r.claims(0, 0);
    r.living(&vec![], 0);
    assert_eq!(r.failures.len(), 1);
    r.living(&vec![5], 0);
    r.claims(1, 0);
    assert_eq!(r.failures.len(), 2);
    r.vanished("a", "b");
    r.refused("a", "b", "Held");
    r.swept(2, 1, &vec![7]);
    assert_eq!(r.failures.len(), 5, "{:?}", r.failures);
    assert!(r.failures[2].contains("`a` or `b` vanished"), "{:?}", r.failures);
    assert_eq!(still_dead(&vec![1, 2], &dead), [1, 2]);
    assert_eq!(unreachable_by_hangup(&vec![], Some(4), Some(4), &vec![(11, 4)]), [4]);
    assert_eq!(
        unreachable_by_hangup(&vec![9, 9], Some(4), Some(9), &vec![(11, 4), (12, 9)]),
        [4, 9, 11]
    );
}

fn end() -> End {
    End {
        violations: 0,
        wedge: None,
        duration_ns: 30_000_000_000,
        interval_ns: 250_000_000,
        duration: "30s".to_owned(),
        kill_hz: "4".to_owned(),
        every: "8s".to_owned(),
        inject: false,
        crash_points: false,
        ledger: CrashLedger { armed: 0, aborted: 0, armed_sites: vec![], fired: vec![] },
        health: Health::new(),
        diagnosis: "a diagnosis".to_owned(),
        recovery_failures: 0,
    }
}

/// The first attempts are put off where that is asked for; the number is that of the kill
/// to be made, which a deferral does not use up.
#[test]
fn the_first_owner_kills_are_deferred_where_that_is_asked_for() {
    let mut d = Driver::new(Some(8_000_000_000), 2);
    assert!(!d.owner_kill_due(3_999_999_999));
    assert!(d.owner_kill_due(4_000_000_000));
    assert_eq!(d.begin_owner_kill(), (1, true));
    assert_eq!(d.begin_owner_kill(), (1, true));
    assert_eq!(d.begin_owner_kill(), (1, false));
    assert_eq!(d.owner_kill_attempts, 3);
    d.keep(Migration::new(1, false));
    assert_eq!(d.begin_owner_kill(), (2, false));
}

fn healthy() -> (Driver, End) {
    let mut d = Driver::new(None, 0);
    d.kills = 100;
    for _ in 0..10 {
        d.round(Reads { chain: 200, edge: 60 }, 1);
    }
    let mut e = end();
    let mut h = RoundHealth::new();
    h.see_windows(
        &vec![window(0, 0, 100), window(1, 10, 90), window(2, 5, 120), window(3, 20, 95)],
        130,
    );
    h.chain_ok = 200;
    h.writers_live = 4;
    h.slots_alive = 5;
    h.slots_registered = 5;
    for _ in 0..10 {
        e.health.add(h);
    }
    (d, e)
}

#[test]
fn a_run_passes_only_where_it_has_shown_something() {
    let (d, e) = healthy();
    assert_eq!(d.judge(&e), None);
    let (d, e) = healthy();
    assert!(d.judge(&End { violations: 1, ..e }).is_some());
    let (d, e) = healthy();
    assert!(d.judge(&End { recovery_failures: 1, ..e }).is_some());
    let (d, e) = healthy();
    assert!(d.judge(&End { wedge: Some("stuck".to_owned()), ..e }).is_some());
    let (mut d, e) = healthy();
    d.kills = 0;
    assert!(d.judge(&e).is_some());
    let (mut d, e) = healthy();
    d.reads = Reads::none();
    assert!(d.judge(&e).is_some());
    let (d, e) = healthy();
    assert!(d.judge(&End { health: Health::new(), ..e }).is_some());
    // A run with a planted violation never passes.
    let (d, e) = healthy();
    assert!(d.judge(&End { inject: true, ..e }).is_some());
    let (d, e) = healthy();
    assert!(d.judge(&End { inject: true, violations: 1, ..e }).is_some());
}

#[test]
fn a_run_is_summed_up() {
    let (d, e) = healthy();
    let c = Closing {
        health: "a health line".to_owned(),
        violations: 0,
        crash_points: false,
        mean_ms: "1.0".to_owned(),
        worst_ms: "2.0".to_owned(),
        tally: "none".to_owned(),
        detach_skips: 3,
    };
    let text = d.report(&e.ledger, &c).join("\n");
    assert!(text.contains("a health line") && text.contains("100"), "{text}");
}

// ---------------------------------------------------------------------------

#[test]
fn a_childs_arguments_are_read() {
    assert!(matches!(parse_child(&strings(&["--role", "owner"])), Ok(Child::Owner)));
    match parse_child(&strings(&["--seed", "5", "--readers-only", "--no-inherit"])) {
        Ok(Child::Worker(w)) => {
            assert_eq!(w.seed, 5);
            assert!(w.readers_only && w.no_inherit && !w.inject);
        }
        _ => panic!("no worker"),
    }
    let why = |v: &[&str]| match parse_child(&strings(v)) {
        Ok(_) => panic!("accepted"),
        Err(e) => e.message(),
    };
    assert_eq!(why(&["--seed"]), "--seed needs a value");
    assert_eq!(why(&["--seed", "x"]), "--seed");
    assert!(matches!(
        parse_child(&strings(&["--seed", "x"])),
        Err(ChildError::BadValue(flag, value)) if flag == "--seed" && value == "x"
    ));
    assert_eq!(why(&["--ballast-mb", "-1"]), "--ballast-mb");
    assert_eq!(why(&["--role", "x"]), "child: unknown --role `Some(\"x\")`");
    assert_eq!(why(&["--role"]), "child: unknown --role `None`");
    assert_eq!(why(&["--x"]), "child: unknown argument `--x`");
}

#[test]
fn a_worker_rolls_its_operations() {
    let mut rng = Xorshift64::new(3);
    let mut twin = Xorshift64::new(3);
    let mut seen = [0usize; 7];
    for _ in 0..2_000 {
        let want = match twin.below(100) {
            0..=9 => (Op::Claim, 0),
            10..=14 => (Op::Release, 1),
            15..=16 => (Op::ReapDead, 2),
            17 => (Op::ReapParticipants, 3),
            18..=19 => (Op::Detach, 4),
            20..=59 => (Op::Publish, 5),
            _ => (Op::Read, 6),
        };
        assert_eq!(roll(&mut rng), want.0);
        seen[want.1] += 1;
    }
    assert!(seen.iter().all(|n| *n > 0), "{seen:?}");
    assert!((200..1800).contains(&pace_us(&mut rng)));
    assert!((10..50).contains(&backoff_ms(&mut rng)));
}

#[test]
fn a_worker_leaves_only_where_nothing_hangs_on_it() {
    assert_eq!(may_leave(Some(5), 5, false), Leave::Serving);
    assert_eq!(may_leave(Some(6), 5, true), Leave::KillInFlight);
    assert_eq!(may_leave(None, 5, false), Leave::Yes);
}

#[test]
fn the_cap_is_extended_for_the_role_holder_and_held_for_a_kill() {
    let mut c = Cap::new();
    for _ in 0..1_999 {
        assert!(!c.take(true, true));
    }
    assert_eq!(c.ops_left, 1);
    assert!(!c.take(true, false));
    assert_eq!((c.ops_left, c.extensions), (2_000, 1));
    for _ in 0..1_999 {
        c.take(false, true);
    }
    assert!(c.take(false, true), "the first one that is held back is recorded");
    assert!(!c.take(false, true), "and no other");
    assert_eq!((c.ops_left, c.rechecks), (1, 2));
    assert!(!c.take(false, false));
    assert_eq!((c.ops_left, c.performed()), (0, 4_002));
    let mut spent = Cap { ops_left: 1, extensions: 10, held: false, rechecks: 0 };
    spent.take(true, false);
    assert_eq!((spent.ops_left, spent.performed()), (0, 22_000));
}

fn pose(v: [f64; 7]) -> Pose {
    let b = v.map(f64::to_bits);
    Pose { qw: b[0], qx: b[1], qy: b[2], qz: b[3], tx: b[4], ty: b[5], tz: b[6] }
}

fn judged(v: [f64; 7]) -> Option<String> {
    let n2 = v[..4].iter().map(|x| x * x).sum::<f64>();
    check(
        &pose(v),
        &Norm { off: (n2 - 1.0).abs().to_bits(), text: format!("{n2}") },
    )
}

#[test]
fn a_transform_is_checked_component_by_component() {
    assert_eq!(f64::from_bits(NORM_SLACK), 1e-6);
    assert_eq!(judged([1.0, 0.0, 0.0, 0.0, 5.0, -6.0, 7.0]), None);
    assert_eq!(judged([1.0, 0.0, 0.0, 0.0, 5.0, f64::INFINITY, 7.0]).as_deref(), Some("translation ty is inf"));
    assert_eq!(judged([1.0, f64::NEG_INFINITY, 0.0, 0.0, 5.0, 0.0, 7.0]).as_deref(), Some("quaternion qx is -inf"));
    assert_eq!(judged([f64::NAN, 0.0, 0.0, 0.0, 5.0, 0.0, f64::NAN]).as_deref(), Some("translation tz is NaN"));
    assert_eq!(judged([2.0, 0.0, 0.0, 0.0, 0.0, 0.0, 0.0]).as_deref(), Some("quaternion norm^2 is 4, not 1"));
    let bad = corrupt(pose([1.0, 0.0, 0.0, 0.0, 1.0, 2.0, 3.0]));
    let why = check(&bad, &Norm { off: 0, text: "1".to_owned() });
    assert_eq!(why.as_deref(), Some("translation tx is NaN"));
    assert_eq!(bad.ty, 2.0f64.to_bits());
    assert_eq!(
        observer_text(Some(("map", "base")), -7, "why"),
        "the observer read a bad transform: map->base at -7: why"
    );
    assert!(observer_text(None, 7, "why").contains("map->tool at 7: why"));
    assert_eq!(
        worker_text(9, 7, "why", "Iso"),
        "VIOLATION pid 9 map->tool at 7: why (iso = Iso)"
    );
}

#[test]
fn an_edge_is_granted_to_one_writer() {
    assert!(matches!(judge_push(true, 3, 3, 1, "a", "b"), Pushed::Fine));
    assert!(matches!(judge_push(true, u32::MAX, 3, 1, "a", "b"), Pushed::Fine));
    assert!(matches!(judge_push(false, 4, 3, 1, "a", "b"), Pushed::Revoked));
    match judge_push(true, 4, 3, 1, "a", "b") {
        Pushed::TwoWriters(s) => {
            assert!(s.starts_with("VIOLATION pid 1 two writers on a->b"), "{s}");
            assert!(s.contains("participant slot 4") && s.contains("(slot 3)"), "{s}");
        }
        _ => panic!("not found out"),
    }
}

#[test]
fn a_role_holder_that_leaves_is_written_down() {
    let mut x = CapExit {
        named: true,
        ops: 22_000,
        extensions: 10,
        tenure: Some("1.500".to_owned()),
        seen: vec![slot(1, Some(11), true), slot(2, Some(10), true), slot(3, Some(12), false)],
        stamp: "9.000".to_owned(),
    };
    let s = x.line(77, 10);
    assert!(s.starts_with("role-holder-cap-exit pid=77 marker_named_this_pid=true attachment_ops=22000 extensions=10/10 tenure=1.500s"), "{s}");
    assert!(s.ends_with("heirs_attached_after_exit=1 stamp=9.000"), "{s}");
    x.tenure = None;
    assert!(x.line(77, 10).contains("tenure=unknown(this attachment recorded no inheritance)"));
}

#[test]
fn a_slow_join_is_reported_within_two_budgets() {
    let mut j = JoinEpisode::new(false);
    assert!(j.attempt());
    assert!(!j.attempt());
    assert!(!j.refused("first", SLOW_JOIN_NS));
    assert!(j.refused("second", SLOW_JOIN_NS + 1));
    assert!(!j.refused("third", SLOW_JOIN_NS + 2));
    assert_eq!(j.first_refusal.as_deref(), Some("first"));
    assert!(j.is_slow(SLOW_JOIN_NS + 1) && !j.is_slow(SLOW_JOIN_NS));
    let t = JoinTexts {
        total: "150.0".to_owned(),
        start_up: Some("3.0".to_owned()),
        lead: "1.0".to_owned(),
        pre_open: "2.0".to_owned(),
        in_open: "100.0".to_owned(),
        backoff: "44.0".to_owned(),
    };
    assert_eq!(
        j.joined_text(7, &t, "1.000", 2, 9),
        "slow-join pid=7 kind=first-join total_ms=150.0 exec_ms=3.0 setup_ms=1.0 pre_open_ms=2.0 \
         in_open_ms=100.0 backoff_ms=44.0 attempts=2 outcome=joined first_refusal=first \
         stamp=1.000 line=2/20 run_line=9/200"
    );
    let mut again = JoinEpisode::new(true);
    again.attempt();
    assert_eq!(
        again.refused_text(7, &JoinTexts { start_up: None, ..t }, "E", "1.000", 1, 1),
        "join-refused pid=7 kind=rejoin since_ms=150.0 drop_ms=1.0 pre_open_ms=2.0 \
         in_open_ms=100.0 backoff_ms=44.0 attempt=1 error=E stamp=1.000 line=1/20 run_line=1/200"
    );
    assert!(may_claim(19) && !may_claim(20));
    assert_eq!((claimed_line(Some(200)), claimed_line(Some(201)), claimed_line(None)), (Some(200), None, None));
    assert_eq!(slow_join_budget_line(200, 0), None);
    let s = slow_join_budget_line(203, 4).expect("withheld");
    assert!(s.contains("7 line(s) withheld, 3 past the run-wide cap of 200 and 4 past"), "{s}");
}

// ---------------------------------------------------------------------------

fn chain_of_four() -> Vec<EdgeWindow> {
    vec![
        EdgeWindow { which: 0, oldest: 0, newest: 100 },
        EdgeWindow { which: 1, oldest: 10, newest: 110 },
        EdgeWindow { which: 2, oldest: 20, newest: 120 },
        EdgeWindow { which: 3, oldest: 5, newest: 90 },
    ]
}

fn good() -> Option<(Pose, Norm)> {
    let norm = Norm { off: 0, text: "1".to_owned() };
    Some((pose([1.0, 0.0, 0.0, 0.0, 0.0, 0.0, 0.0]), norm))
}

/// Each edge is asked sixteen times in its own window, then the chain 256 times in the
/// window that all four share; a declined read is not counted.
#[test]
fn a_round_asks_every_edge_and_then_the_chain() {
    let windows = chain_of_four();
    let mut rng = Xorshift64::new(7);
    let mut o = Observation::new(windows.clone(), true);
    assert_eq!(o.shared, Some((20, 90)));
    let (mut edges, mut chain) = ([0; 4], 0);
    loop {
        match o.next(&mut rng) {
            Ask::Done => break,
            Ask::Edge { window, at } => {
                assert_eq!(chain, 0);
                assert!(windows[window].oldest <= at && at <= windows[window].newest);
                edges[window] += 1;
                o.answer(&if edges[window] % 2 == 0 { good() } else { None });
            }
            Ask::Chain { at } => {
                assert!((20..=90).contains(&at));
                chain += 1;
                o.answer(&good());
            }
        }
    }
    assert_eq!(edges, [16; 4]);
    assert_eq!(chain, 256);
    assert_eq!(o.reads, Reads { chain: 256, edge: 32 });
    assert!(o.violation.is_none());
}

/// Three windows share nothing, and a chain without a plan is not asked.
#[test]
fn a_round_without_a_common_window_leaves_the_chain_alone() {
    let mut rng = Xorshift64::new(7);
    for (windows, planned) in [(chain_of_four()[..3].to_vec(), true), (chain_of_four(), false)] {
        let expected = 16 * windows.len();
        let mut o = Observation::new(windows, planned);
        let mut asked = 0;
        while o.next(&mut rng) != Ask::Done {
            asked += 1;
            o.answer(&None);
        }
        assert_eq!(asked, expected);
        assert_eq!(o.reads, Reads { chain: 0, edge: 0 });
    }
    let mut o = Observation::new(vec![], true);
    assert_eq!(o.next(&mut rng), Ask::Done);
}

/// A bad transform is reported with its edge and stamp, and ends the round.
#[test]
fn a_bad_transform_ends_the_round() {
    let mut rng = Xorshift64::new(7);
    let mut o = Observation::new(chain_of_four(), true);
    for _ in 0..16 {
        o.next(&mut rng);
        o.answer(&good());
    }
    let Ask::Edge { window: 1, at } = o.next(&mut rng) else {
        panic!("the second edge is asked");
    };
    let (p, norm) = good().unwrap();
    o.answer(&Some((corrupt(p), norm)));
    assert_eq!(
        o.violation.as_deref(),
        Some(
            format!(
                "the observer read a bad transform: odom->base at {at}: translation tx is NaN"
            )
            .as_str()
        )
    );
    assert_eq!(o.reads, Reads { chain: 0, edge: 17 });
    assert_eq!(o.next(&mut rng), Ask::Done);
}

/// A round begins only before the deadline, and is finished once it began.
#[test]
fn a_round_is_finished_once_it_began() {
    let mut r = Rounds::new(10);
    let mut seen = vec![];
    for now in 0..20 {
        let stage = r.next(now);
        if stage == Stage::Over {
            break;
        }
        seen.push(stage);
        r.done(false, false);
    }
    let one = [
        Stage::Pause,
        Stage::Observe,
        Stage::Reap,
        Stage::Respawn,
        Stage::OwnerKill,
        Stage::Draw,
    ];
    assert_eq!(seen, [one, one].concat());
}

/// A violation that the reads find is followed by the reaping, and by nothing else; an arena
/// that cannot recover is left alone too.
#[test]
fn nobody_is_killed_after_a_violation() {
    let mut r = Rounds::new(10);
    r.done(false, false);
    assert_eq!(r.next(0), Stage::Observe);
    r.done(true, false);
    assert_eq!(r.next(0), Stage::Reap);
    r.done(true, false);
    assert_eq!(r.next(0), Stage::Over);

    let mut r = Rounds::new(10);
    for _ in 0..4 {
        r.done(false, false);
    }
    assert_eq!(r.next(0), Stage::OwnerKill);
    r.done(false, true);
    assert_eq!(r.next(0), Stage::Over);
}

/// A worker claims where it holds nothing, publishes where it holds something, and does
/// neither as a mere reader.
#[test]
fn a_reader_neither_claims_nor_publishes() {
    assert_eq!(act(Op::Claim, false, false), Act::Claim);
    assert_eq!(act(Op::Claim, true, false), Act::Nothing);
    assert_eq!(act(Op::Claim, false, true), Act::Nothing);
    assert_eq!(act(Op::Publish, true, false), Act::Publish);
    assert_eq!(act(Op::Publish, false, true), Act::Nothing);
    assert_eq!(act(Op::Release, true, false), Act::Release);
    assert_eq!(act(Op::ReapDead, false, true), Act::ReapDead);
    assert_eq!(act(Op::ReapParticipants, false, true), Act::ReapParticipants);
    assert_eq!(act(Op::Detach, false, true), Act::AskToLeave);
    assert_eq!(act(Op::Read, false, true), Act::Read);
}

/// The holder of the role outlives the other workers, and an empty slot has nobody to kill.
#[test]
fn the_holder_goes_last() {
    let kids = vec![Some(10), None, Some(12), Some(13)];
    assert_eq!(first_to_go(&kids, Some(12)), vec![0, 3]);
    assert_eq!(first_to_go(&kids, Some(99)), vec![0, 2, 3]);
    assert_eq!(first_to_go(&kids, None), vec![0, 2, 3]);
    assert!(first_to_go(&vec![], Some(1)).is_empty());
}

/// The signals are the ones that the system's headers name.
#[test]
fn the_signals_are_the_systems() {
    assert_eq!(SIGABRT, libc::SIGABRT);
    assert_eq!(SIGKILL, libc::SIGKILL);
}
