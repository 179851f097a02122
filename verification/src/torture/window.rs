//! The stamps that the chain's edges retain, and those that all of them can answer at once.

use vstd::prelude::*;

use crate::rng::{shifted, Xorshift64};

verus! {

/// What one edge of the chain retains.
#[derive(Debug, Clone, Copy, PartialEq, Eq, Structural)]
pub struct EdgeWindow {
    /// Its place in the chain.
    pub which: usize,
    pub oldest: i64,
    pub newest: i64,
}

/// The window whose oldest stamp is the latest, the last of those that tie: it holds the
/// intersection up at its start.
pub open spec fn blocker(ws: Seq<EdgeWindow>) -> EdgeWindow
    decreases ws.len(),
{
    if ws.len() <= 1 {
        ws[0]
    } else {
        let b = blocker(ws.drop_last());
        if ws.last().oldest >= b.oldest {
            ws.last()
        } else {
            b
        }
    }
}

/// The window whose newest stamp is the earliest, the first of those that tie: it holds the
/// intersection back at its end.
pub open spec fn laggard(ws: Seq<EdgeWindow>) -> EdgeWindow
    decreases ws.len(),
{
    if ws.len() <= 1 {
        ws[0]
    } else {
        let l = laggard(ws.drop_last());
        if ws.last().newest < l.newest {
            ws.last()
        } else {
            l
        }
    }
}

/// Whether every edge of the chain has a window, and they intersect.
pub open spec fn overlap(ws: Seq<EdgeWindow>) -> bool {
    ws.len() == 4 && blocker(ws).oldest <= laggard(ws).newest
}

/// The stamps that every edge can answer at once.
pub open spec fn common(ws: Seq<EdgeWindow>) -> Option<(i64, i64)> {
    if overlap(ws) {
        Some((blocker(ws).oldest, laggard(ws).newest))
    } else {
        None
    }
}

proof fn lemma_extremes(ws: Seq<EdgeWindow>, k: int)
    requires
        0 <= k < ws.len(),
    ensures
        ws[k].oldest <= blocker(ws).oldest,
        laggard(ws).newest <= ws[k].newest,
    decreases ws.len(),
{
    if ws.len() > 1 && k < ws.len() - 1 {
        lemma_extremes(ws.drop_last(), k);
    }
}

/// The common stamps lie in every edge's window.
pub proof fn law_common_is_in_every_window(ws: Seq<EdgeWindow>, k: int)
    requires
        common(ws) is Some,
        0 <= k < ws.len(),
    ensures
        ws[k].oldest <= (common(ws)->0).0,
        (common(ws)->0).0 <= (common(ws)->0).1,
        (common(ws)->0).1 <= ws[k].newest,
{
    lemma_extremes(ws, k);
}

/// The windows that hold the intersection up and back.
pub fn extremes(ws: &Vec<EdgeWindow>) -> (r: (EdgeWindow, EdgeWindow))
    requires
        ws@.len() > 0,
    ensures
        r.0 == blocker(ws@),
        r.1 == laggard(ws@),
{
    let mut b: EdgeWindow = ws[0];
    let mut l: EdgeWindow = ws[0];
    let mut i: usize = 1;
    assert(ws@.take(1)[0] == ws@[0]);
    while i < ws.len()
        invariant
            1 <= i <= ws@.len(),
            b == blocker(ws@.take(i as int)),
            l == laggard(ws@.take(i as int)),
        decreases ws@.len() - i,
    {
        assert(ws@.take(i + 1).drop_last() =~= ws@.take(i as int));
        if ws[i].oldest >= b.oldest {
            b = ws[i];
        }
        if ws[i].newest < l.newest {
            l = ws[i];
        }
        i = i + 1;
    }
    assert(ws@.take(i as int) =~= ws@);
    (b, l)
}

/// The stamps that every edge of the chain can answer at once, if there are any: none
/// shortly after a writer was killed.
pub fn common_window(ws: &Vec<EdgeWindow>) -> (r: Option<(i64, i64)>)
    ensures
        r == common(ws@),
{
    if ws.len() != 4 {
        return None;
    }
    let (b, l) = extremes(ws);
    if b.oldest <= l.newest {
        Some((b.oldest, l.newest))
    } else {
        None
    }
}

/// A difference, or the largest where it is larger.
pub open spec fn saturated(d: int) -> int {
    if d > i64::MAX {
        i64::MAX as int
    } else if d < i64::MIN {
        i64::MIN as int
    } else {
        d
    }
}

/// A stamp of a window, and the generator after the draw.
pub open spec fn picked(state: u64, lo: i64, hi: i64) -> (int, u64) {
    let span = saturated(hi - lo);
    if span <= 0 {
        (lo as int, state)
    } else {
        (saturated(lo + shifted(state) as int % (span + 1)), shifted(state))
    }
}

/// A stamp that is drawn from a window is in the window.
pub proof fn law_picks_are_in_the_window(state: u64, lo: i64, hi: i64)
    requires
        lo <= hi,
    ensures
        lo <= picked(state, lo, hi).0 <= hi,
{
    let span = saturated(hi - lo);
    if span > 0 {
        let x = shifted(state) as int % (span + 1);
        assert(0 <= x <= span) by (nonlinear_arith)
            requires
                x == shifted(state) as int % (span + 1),
                span > 0,
        ;
    }
}

/// A stamp of a window, so that interpolation between samples is exercised.
pub fn pick(rng: &mut Xorshift64, lo: i64, hi: i64) -> (r: i64)
    ensures
        (r as int, final(rng).state) == picked(old(rng).state, lo, hi),
{
    let span: i64 = match hi.checked_sub(lo) {
        Some(d) => d,
        None => if lo < 0 {
            i64::MAX
        } else {
            i64::MIN
        },
    };
    if span <= 0 {
        return lo;
    }
    let x: u64 = rng.below(span as u64 + 1);
    match lo.checked_add(x as i64) {
        Some(at) => at,
        None => i64::MAX,
    }
}

/// The window that opens last holds the intersection up, and the one that closes first holds it
/// back: of equals the last and the first.
pub proof fn law_the_extremes_of_windows(ws: Seq<EdgeWindow>)
    requires
        ws.len() > 0,
    ensures
        exists|k: int|
            0 <= k < ws.len() && blocker(ws) == #[trigger] ws[k] && (forall|j: int|
                0 <= j < k ==> (#[trigger] ws[j]).oldest <= ws[k].oldest) && forall|j: int|
                k < j < ws.len() ==> (#[trigger] ws[j]).oldest < ws[k].oldest,
        exists|k: int|
            0 <= k < ws.len() && laggard(ws) == #[trigger] ws[k] && (forall|j: int|
                0 <= j < k ==> (#[trigger] ws[j]).newest > ws[k].newest) && forall|j: int|
                k < j < ws.len() ==> (#[trigger] ws[j]).newest >= ws[k].newest,
    decreases ws.len(),
{
    let n = ws.len() - 1;
    if ws.len() == 1 {
        assert(ws[0] == blocker(ws));
    } else {
        let rest = ws.drop_last();
        law_the_extremes_of_windows(rest);
        assert forall|j: int| 0 <= j < n implies #[trigger] ws[j] == rest[j] by {}
        let b = choose|k: int|
            0 <= k < rest.len() && blocker(rest) == #[trigger] rest[k] && (forall|j: int|
                0 <= j < k ==> (#[trigger] rest[j]).oldest <= rest[k].oldest) && forall|j: int|
                k < j < rest.len() ==> (#[trigger] rest[j]).oldest < rest[k].oldest;
        let l = choose|k: int|
            0 <= k < rest.len() && laggard(rest) == #[trigger] rest[k] && (forall|j: int|
                0 <= j < k ==> (#[trigger] rest[j]).newest > rest[k].newest) && forall|j: int|
                k < j < rest.len() ==> (#[trigger] rest[j]).newest >= rest[k].newest;
        assert(ws[b] == rest[b] && ws[l] == rest[l]);
        if ws[n].oldest >= rest[b].oldest {
            assert(blocker(ws) == ws[n]);
            assert forall|j: int| 0 <= j < n implies (#[trigger] ws[j]).oldest <= ws[n].oldest by {
                assert(ws[j] == rest[j]);
            }
        } else {
            assert(blocker(ws) == ws[b]);
            assert forall|j: int| b < j < ws.len() implies (#[trigger] ws[j]).oldest
                < ws[b].oldest by {
                if j < n {
                    assert(ws[j] == rest[j]);
                }
            }
            assert forall|j: int| 0 <= j < b implies (#[trigger] ws[j]).oldest <= ws[b].oldest by {
                assert(ws[j] == rest[j]);
            }
        }
        if ws[n].newest < rest[l].newest {
            assert(laggard(ws) == ws[n]);
            assert forall|j: int| 0 <= j < n implies (#[trigger] ws[j]).newest > ws[n].newest by {
                assert(ws[j] == rest[j]);
            }
        } else {
            assert(laggard(ws) == ws[l]);
            assert forall|j: int| l < j < ws.len() implies (#[trigger] ws[j]).newest
                >= ws[l].newest by {
                if j < n {
                    assert(ws[j] == rest[j]);
                }
            }
            assert forall|j: int| 0 <= j < l implies (#[trigger] ws[j]).newest > ws[l].newest by {
                assert(ws[j] == rest[j]);
            }
        }
    }
}

/// The common window is the widest: whatever lies in all four windows lies in it, and there is
/// none of fewer than four.
pub proof fn law_common_is_the_widest(ws: Seq<EdgeWindow>, at: i64)
    ensures
        common(ws) is Some ==> ws.len() == 4,
        ws.len() == 4 && (forall|k: int|
            0 <= k < 4 ==> (#[trigger] ws[k]).oldest <= at <= ws[k].newest) ==> (common(
            ws,
        ) matches Some((lo, hi)) && lo <= at <= hi),
{
    if ws.len() == 4 {
        law_the_extremes_of_windows(ws);
        let b = choose|k: int| 0 <= k < ws.len() && blocker(ws) == #[trigger] ws[k];
        let l = choose|k: int| 0 <= k < ws.len() && laggard(ws) == #[trigger] ws[k];
        assert(ws[b].oldest == blocker(ws).oldest && ws[l].newest == laggard(ws).newest);
    }
}

/// A window of one instant takes no draw, and any other one, whose remainder is how far into the
/// window the pick is.
pub proof fn law_a_pick_is_a_draw(state: u64, lo: i64, hi: i64)
    ensures
        hi <= lo ==> picked(state, lo, hi) == (lo as int, state),
        lo < hi ==> picked(state, lo, hi).1 == shifted(state),
        lo < hi && hi - lo <= i64::MAX ==> picked(state, lo, hi).0 == lo + shifted(state) as int % (
        hi - lo + 1),
{
    if lo < hi && hi - lo <= i64::MAX {
        let d = hi - lo + 1;
        assert(0 <= shifted(state) as int % d < d) by (nonlinear_arith)
            requires
                d > 0,
        ;
    }
}

} // verus!
