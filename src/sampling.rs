//! Splitting a sampling interval into contiguous windows over a chain of snapshots.
//! Snapshots are opaque to this module: each comes with the time (ms) it was taken.
use vstd::prelude::*;

verus! {

/// Most windows one interval is split into.
pub const MAX_WINDOWS: usize = 32;

/// Number of windows and the length of each (ms) for an interval of `duration` ms
/// split into `count` windows, `count` being brought into `[1, MAX_WINDOWS]`.
pub fn plan_windows(duration: u64, count: usize) -> (r: (usize, u64))
    ensures
        r.0 == (if count < 1 { 1 } else if count > MAX_WINDOWS { MAX_WINDOWS } else { count }),
        r.1 == duration / (r.0 as u64),
{
    let n: usize = if count < 1 {
        1
    } else if count > MAX_WINDOWS {
        MAX_WINDOWS
    } else {
        count
    };
    (n, duration / n as u64)
}

/// New snapshots to take for `count` windows: one per window, and one more to start
/// the chain when no snapshot is carried over from the previous interval.
pub fn snapshots_to_take(has_prev: bool, count: usize) -> (r: usize)
    requires
        count <= MAX_WINDOWS,
    ensures
        r == count + if has_prev { 0int } else { 1int },
{
    if has_prev {
        count
    } else {
        count + 1
    }
}

/// Elapsed milliseconds between two snapshot times, at least one.
pub open spec fn elapsed_spec(from: u64, to: u64) -> u64 {
    if to > from && to - from >= 1 {
        (to - from) as u64
    } else {
        1
    }
}

/// The whole chain: the carried-over snapshot, if any, then the new ones.
pub open spec fn chain<T>(prev: Option<(T, u64)>, fresh: Seq<(T, u64)>) -> Seq<(T, u64)> {
    match prev {
        Some(p) => seq![p] + fresh,
        None => fresh,
    }
}

/// Sum of the elapsed times of a list of windows.
pub open spec fn elapsed_total<T>(w: Seq<(T, T, u64)>) -> int
    decreases w.len(),
{
    if w.len() == 0 {
        0
    } else {
        elapsed_total(w.drop_last()) + w.last().2
    }
}

/// Pairs each snapshot of the chain with the next one: window `i` runs from snapshot
/// `i` to snapshot `i + 1` and carries their elapsed time (at least one ms). The last
/// snapshot is returned to be carried over to the next interval.
pub fn chain_windows<T: Copy>(prev: Option<(T, u64)>, fresh: &Vec<(T, u64)>) -> (r: (
    Vec<(T, T, u64)>,
    Option<(T, u64)>,
))
    requires
        chain(prev, fresh@).len() >= 1,
    ensures
        ({
            let c = chain(prev, fresh@);
            &&& r.0@.len() == c.len() - 1
            &&& forall|i: int|
                0 <= i < r.0@.len() ==> #[trigger] r.0@[i] == (c[i].0, c[i + 1].0, elapsed_spec(
                    c[i].1,
                    c[i + 1].1,
                ))
            &&& r.1 == Some(c.last())
        }),
{
    let ghost c = chain(prev, fresh@);
    let mut out: Vec<(T, T, u64)> = Vec::new();
    let mut last: (T, u64);
    let mut i: usize;
    match prev {
        Some(p) => {
            last = p;
            i = 0;
        },
        None => {
            last = fresh[0];
            i = 1;
        },
    }
    let ghost base: int = if prev is Some { 1 } else { 0 };
    while i < fresh.len()
        invariant
            c == chain(prev, fresh@),
            base == (if prev is Some { 1int } else { 0int }),
            1 <= i + base <= c.len(),
            i <= fresh@.len(),
            forall|k: int| 0 <= k < fresh@.len() ==> #[trigger] c[k + base] == fresh@[k],
            last == c[i + base - 1],
            out@.len() == i + base - 1,
            forall|k: int|
                0 <= k < out@.len() ==> #[trigger] out@[k] == (c[k].0, c[k + 1].0, elapsed_spec(
                    c[k].1,
                    c[k + 1].1,
                )),
        decreases fresh@.len() - i,
    {
        let next = fresh[i];
        let dt: u64 = if next.1 > last.1 && next.1 - last.1 >= 1 {
            next.1 - last.1
        } else {
            1
        };
        out.push((last.0, next.0, dt));
        last = next;
        i = i + 1;
    }
    (out, Some(last))
}

proof fn lemma_elapsed_prefix<T>(w: Seq<(T, T, u64)>, c: Seq<(T, u64)>, n: int)
    requires
        0 <= n <= w.len(),
        w.len() == c.len() - 1,
        forall|i: int| 0 <= i < w.len() ==> #[trigger] w[i].2 == elapsed_spec(c[i].1, c[i + 1].1),
        forall|i: int| 0 <= i < c.len() - 1 ==> #[trigger] c[i].1 < c[i + 1].1,
    ensures
        elapsed_total(w.subrange(0, n)) == c[n].1 - c[0].1,
    decreases n,
{
    if n > 0 {
        lemma_elapsed_prefix(w, c, n - 1);
        assert(w.subrange(0, n).drop_last() =~= w.subrange(0, n - 1));
        assert(c[n - 1].1 < c[n].1);
    }
}

/// Over a chain of snapshots taken at strictly increasing times, the windows' elapsed
/// times add up to exactly the time between the first and the last snapshot, and there
/// is one window fewer than snapshots.
pub proof fn lemma_windows_cover_interval<T>(w: Seq<(T, T, u64)>, c: Seq<(T, u64)>)
    requires
        c.len() >= 1,
        w.len() == c.len() - 1,
        forall|i: int|
            0 <= i < w.len() ==> #[trigger] w[i] == (c[i].0, c[i + 1].0, elapsed_spec(c[i].1, c[i + 1].1)),
        forall|i: int| 0 <= i < c.len() - 1 ==> #[trigger] c[i].1 < c[i + 1].1,
    ensures
        elapsed_total(w) == c.last().1 - c[0].1,
{
    assert forall|i: int| 0 <= i < w.len() implies #[trigger] w[i].2 == elapsed_spec(c[i].1, c[i + 1].1) by {
        assert(w[i] == (c[i].0, c[i + 1].0, elapsed_spec(c[i].1, c[i + 1].1)));
    }
    lemma_elapsed_prefix(w, c, w.len() as int);
    assert(w.subrange(0, w.len() as int) =~= w);
}

/// Taking `snapshots_to_take` new snapshots makes a chain of exactly `count + 1`
/// snapshots, whether or not one was carried over, hence `count` windows.
pub proof fn lemma_chain_length<T>(prev: Option<(T, u64)>, fresh: Seq<(T, u64)>, count: int)
    requires
        fresh.len() == count + if prev is Some { 0int } else { 1int },
    ensures
        chain(prev, fresh).len() == count + 1,
{
}

proof fn lemma_total_at_least<T>(w: Seq<(T, T, u64)>, n: int, step: int)
    requires
        0 <= n <= w.len(),
        forall|i: int| 0 <= i < w.len() ==> #[trigger] w[i].2 >= step,
    ensures
        elapsed_total(w.subrange(0, n)) >= n * step,
    decreases n,
{
    if n > 0 {
        lemma_total_at_least(w, n - 1, step);
        assert(w.subrange(0, n).drop_last() =~= w.subrange(0, n - 1));
        assert(w[n - 1].2 >= step);
        assert(w.subrange(0, n).last() == w[n - 1]);
        assert(elapsed_total(w.subrange(0, n)) == elapsed_total(w.subrange(0, n - 1)) + w[n - 1].2);
        assert((n - 1) * step + step == n * step) by (nonlinear_arith);
    } else {
        assert(w.subrange(0, 0).len() == 0);
    }
}

/// When each snapshot is taken at least `step` ms after the one before (each window
/// holds a sleep of `step` ms), every window's elapsed time is at least `step`, and
/// the windows together cover at least `step` times their number.
pub proof fn lemma_windows_at_least_step<T>(w: Seq<(T, T, u64)>, c: Seq<(T, u64)>, step: int)
    requires
        c.len() >= 1,
        w.len() == c.len() - 1,
        step >= 1,
        forall|i: int|
            0 <= i < w.len() ==> #[trigger] w[i] == (c[i].0, c[i + 1].0, elapsed_spec(c[i].1, c[i + 1].1)),
        forall|i: int| 0 <= i < c.len() - 1 ==> #[trigger] c[i].1 + step <= c[i + 1].1,
    ensures
        forall|i: int| 0 <= i < w.len() ==> #[trigger] w[i].2 >= step,
        elapsed_total(w) >= w.len() * step,
{
    assert forall|i: int| 0 <= i < w.len() implies #[trigger] w[i].2 >= step by {
        assert(w[i] == (c[i].0, c[i + 1].0, elapsed_spec(c[i].1, c[i + 1].1)));
        assert(c[i].1 + step <= c[i + 1].1);
    }
    lemma_total_at_least(w, w.len() as int, step);
    assert(w.subrange(0, w.len() as int) =~= w);
}

} // verus!
