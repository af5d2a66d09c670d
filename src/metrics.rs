//! Derivation of frequencies, utilisation and power from counter deltas.
use vstd::prelude::*;
use vstd::multiset::Multiset;
use crate::soc::{ascending, SocInfo};
use vstd::arithmetic::div_mod::{lemma_div_denominator, lemma_fundamental_div_mod_converse};
use crate::text::{
    contains, ends_with, is_infix, is_prefix, is_suffix, lemma_name_le_total, lemma_name_le_trans,
    name_le, name_le_exec, starts_with, str_eq,
};

verus! {

/// Parts per million: the fixed-point scale of every fraction in this crate.
pub const PPM: u64 = 1_000_000;

/// Division that yields zero for a zero divisor.
pub open spec fn zero_div_spec(a: int, b: int) -> int {
    if b == 0 {
        0
    } else {
        a / b
    }
}

pub open spec fn max_int(a: int, b: int) -> int {
    if a >= b {
        a
    } else {
        b
    }
}

/// Integer division that yields zero when the divisor is zero.
pub fn zero_div(a: u64, b: u64) -> (r: u64)
    ensures
        r == zero_div_spec(a as int, b as int),
{
    if b == 0 {
        0
    } else {
        a / b
    }
}

// ---------------------------------------------------------------------------
// Residency lists

/// The names that the platform gives to the inactive states of a domain.
pub open spec fn is_idle_state(name: Seq<char>) -> bool {
    name == "IDLE"@ || name == "DOWN"@ || name == "OFF"@
}

/// Index of the first active state at or after `i` (the length if none).
pub open spec fn first_active_from(s: Seq<(String, u64)>, i: nat) -> nat
    decreases s.len() - i,
{
    if i >= s.len() {
        s.len()
    } else if !is_idle_state(s[i as int].0@) {
        i
    } else {
        first_active_from(s, i + 1)
    }
}

/// Index of the first active state of a residency list.
pub open spec fn first_active(s: Seq<(String, u64)>) -> nat {
    first_active_from(s, 0)
}

/// Sum of the residencies of the states in `[lo, hi)`.
pub open spec fn residency_sum(s: Seq<(String, u64)>, lo: int, hi: int) -> int
    decreases hi - lo,
{
    if hi <= lo {
        0
    } else {
        residency_sum(s, lo, hi - 1) + s[hi - 1].1
    }
}

/// Sum over the first `n` active states (from `off`) of residency times table frequency.
pub open spec fn weighted_freq(s: Seq<(String, u64)>, off: int, freqs: Seq<u32>, n: int) -> int
    decreases n,
{
    if n <= 0 {
        0
    } else {
        weighted_freq(s, off, freqs, n - 1) + s[off + n - 1].1 * freqs[n - 1]
    }
}

/// Residency spent in active states.
pub open spec fn active_residency(s: Seq<(String, u64)>) -> int {
    residency_sum(s, first_active(s) as int, s.len() as int)
}

/// Residency spent in all states.
pub open spec fn total_residency(s: Seq<(String, u64)>) -> int {
    residency_sum(s, 0, s.len() as int)
}

/// Residency-weighted average frequency, rounded down (zero when nothing was active).
pub open spec fn avg_freq_spec(s: Seq<(String, u64)>, freqs: Seq<u32>) -> int {
    zero_div_spec(
        weighted_freq(s, first_active(s) as int, freqs, freqs.len() as int),
        active_residency(s),
    )
}

/// Share of the total residency spent in active states, in parts per million.
pub open spec fn usage_ppm_spec(s: Seq<(String, u64)>) -> int {
    zero_div_spec(active_residency(s) * PPM, total_residency(s))
}

/// Average frequency, raised to the lowest table frequency, times the active share,
/// relative to the highest table frequency; in parts per million, rounded down once
/// (zero when the total residency or the highest frequency is zero).
pub open spec fn from_max_ppm_spec(s: Seq<(String, u64)>, freqs: Seq<u32>) -> int {
    zero_div_spec(
        max_int(avg_freq_spec(s, freqs), freqs[0] as int) * active_residency(s) * PPM,
        total_residency(s) * freqs.last(),
    )
}

/// What `calc_freq` needs of a residency list and its frequency table: a non-empty
/// table, more states than table entries, a table entry for every state from the first
/// active one on, and a state count within the reporting API's 32-bit count.
pub open spec fn residencies_fit(s: Seq<(String, u64)>, freqs: Seq<u32>) -> bool {
    &&& freqs.len() > 0
    &&& s.len() > freqs.len()
    &&& first_active(s) + freqs.len() <= s.len()
    &&& s.len() <= i32::MAX
}

proof fn lemma_sum_split(s: Seq<(String, u64)>, lo: int, mid: int, hi: int)
    requires
        lo <= mid <= hi,
    ensures
        residency_sum(s, lo, hi) == residency_sum(s, lo, mid) + residency_sum(s, mid, hi),
    decreases hi - mid,
{
    if hi > mid {
        lemma_sum_split(s, lo, mid, hi - 1);
    }
}

proof fn lemma_sum_nonneg(s: Seq<(String, u64)>, lo: int, hi: int)
    ensures
        residency_sum(s, lo, hi) >= 0,
    decreases hi - lo,
{
    if hi > lo {
        lemma_sum_nonneg(s, lo, hi - 1);
    }
}

proof fn lemma_first_active_bounds(s: Seq<(String, u64)>, i: nat)
    requires
        i <= s.len(),
    ensures
        i <= first_active_from(s, i) <= s.len(),
        first_active_from(s, i) < s.len() ==> !is_idle_state(s[first_active_from(s, i) as int].0@),
    decreases s.len() - i,
{
    if i < s.len() && is_idle_state(s[i as int].0@) {
        lemma_first_active_bounds(s, i + 1);
    }
}

/// With no residency in any active state, the derived frequency, the active share
/// and the share of the highest frequency are all zero.
pub proof fn lemma_idle_domain_reads_zero(s: Seq<(String, u64)>, freqs: Seq<u32>)
    requires
        residencies_fit(s, freqs),
        active_residency(s) == 0,
    ensures
        avg_freq_spec(s, freqs) == 0,
        usage_ppm_spec(s) == 0,
        from_max_ppm_spec(s, freqs) == 0,
{
    assert(max_int(0, freqs[0] as int) * 0 == 0);
}

proof fn lemma_weighted_single(s: Seq<(String, u64)>, off: int, freqs: Seq<u32>, j: int, n: int)
    requires
        0 <= j < freqs.len(),
        0 <= off,
        0 <= n <= freqs.len(),
        off + freqs.len() <= s.len(),
        forall|k: int| 0 <= k < freqs.len() && k != j ==> #[trigger] s[off + k].1 == 0,
    ensures
        weighted_freq(s, off, freqs, n) == if j < n { s[off + j].1 * freqs[j] } else { 0 },
    decreases n,
{
    if n > 0 {
        lemma_weighted_single(s, off, freqs, j, n - 1);
        if n - 1 != j {
            assert(s[off + n - 1].1 * freqs[n - 1] == 0);
        }
    }
}

proof fn lemma_sum_single(s: Seq<(String, u64)>, lo: int, j: int, hi: int)
    requires
        lo <= hi <= s.len(),
        0 <= lo,
        forall|k: int| lo <= k < hi && k != j ==> s[k].1 == 0,
    ensures
        residency_sum(s, lo, hi) == if lo <= j < hi { s[j].1 as int } else { 0 },
    decreases hi - lo,
{
    if hi > lo {
        lemma_sum_single(s, lo, j, hi - 1);
    }
}

/// When a single active state holds all the active residency, the derived average
/// frequency is exactly that state's table frequency.
pub proof fn lemma_single_state_frequency(s: Seq<(String, u64)>, freqs: Seq<u32>, j: int)
    requires
        residencies_fit(s, freqs),
        0 <= j < freqs.len(),
        s[first_active(s) + j].1 > 0,
        forall|k: int|
            first_active(s) <= k < s.len() && k != first_active(s) + j ==> s[k].1 == 0,
    ensures
        avg_freq_spec(s, freqs) == freqs[j],
{
    let off = first_active(s) as int;
    let r = s[off + j].1 as int;
    assert forall|k: int| 0 <= k < freqs.len() && k != j implies #[trigger] s[off + k].1 == 0 by {
        assert(off <= off + k < s.len());
    }
    lemma_weighted_single(s, off, freqs, j, freqs.len() as int);
    lemma_sum_single(s, off, off + j, s.len() as int);
    assert(r * freqs[j] / r == freqs[j]) by (nonlinear_arith)
        requires
            r > 0,
    ;
}

proof fn lemma_weighted_at_most(s: Seq<(String, u64)>, off: int, freqs: Seq<u32>, n: int, top: int)
    requires
        0 <= off,
        0 <= n <= freqs.len(),
        off + freqs.len() <= s.len(),
        forall|k: int| 0 <= k < freqs.len() ==> #[trigger] freqs[k] <= top,
    ensures
        weighted_freq(s, off, freqs, n) <= residency_sum(s, off, off + n) * top,
    decreases n,
{
    if n > 0 {
        lemma_weighted_at_most(s, off, freqs, n - 1, top);
        let r = s[off + n - 1].1 as int;
        let f = freqs[n - 1] as int;
        assert(r * f <= r * top) by (nonlinear_arith)
            requires
                r >= 0,
                f <= top,
        ;
        assert(residency_sum(s, off, off + n) == residency_sum(s, off, off + n - 1) + r);
        assert(residency_sum(s, off, off + n - 1) * top + r * top == residency_sum(s, off, off + n) * top)
            by (nonlinear_arith)
            requires
                residency_sum(s, off, off + n) == residency_sum(s, off, off + n - 1) + r,
        ;
    }
}

/// With an ascending table, the derived frequency never exceeds the table's highest
/// frequency, and its share of the highest frequency is at most one (a million ppm).
pub proof fn lemma_ascending_table_bounds(s: Seq<(String, u64)>, freqs: Seq<u32>)
    requires
        residencies_fit(s, freqs),
        ascending(freqs),
    ensures
        avg_freq_spec(s, freqs) <= freqs.last(),
        0 <= usage_ppm_spec(s) <= PPM,
        0 <= from_max_ppm_spec(s, freqs) <= PPM,
{
    let off = first_active(s) as int;
    let n = freqs.len() as int;
    let top = freqs.last() as int;
    let w = weighted_freq(s, off, freqs, n);
    let usage = active_residency(s);
    let total = total_residency(s);
    assert forall|k: int| 0 <= k < freqs.len() implies #[trigger] freqs[k] <= top by {
        assert(freqs[k] <= freqs[n - 1]);
    }
    lemma_weighted_at_most(s, off, freqs, n, top);
    lemma_sum_split(s, off, off + n, s.len() as int);
    lemma_sum_nonneg(s, off + n, s.len() as int);
    lemma_sum_nonneg(s, off, off + n);
    lemma_sum_split(s, 0, off, s.len() as int);
    lemma_sum_nonneg(s, 0, off);
    let sel = residency_sum(s, off, off + n);
    assert(w <= usage * top) by (nonlinear_arith)
        requires
            w <= sel * top,
            sel <= usage,
            top >= 0,
    ;
    let avg = avg_freq_spec(s, freqs);
    if usage != 0 {
        assert(w / usage <= top) by (nonlinear_arith)
            requires
                w <= usage * top,
                usage > 0,
        ;
        assert(w >= 0) by {
            lemma_weighted_nonneg(s, off, freqs, n);
        }
        assert(w / usage >= 0) by (nonlinear_arith)
            requires
                w >= 0,
                usage > 0,
        ;
    }
    assert(total >= 0 && top >= 0);
    assert(total * top >= 0) by (nonlinear_arith)
        requires
            total >= 0,
            top >= 0,
    ;
    let ppm = usage_ppm_spec(s);
    if total != 0 {
        assert(usage * 1_000_000 / total <= 1_000_000) by (nonlinear_arith)
            requires
                usage <= total,
                total > 0,
                usage >= 0,
        ;
        assert(usage * 1_000_000 / total >= 0) by (nonlinear_arith)
            requires
                total > 0,
                usage >= 0,
        ;
    }
    let clamped = max_int(avg, freqs[0] as int);
    assert(freqs[0] <= top);
    if total * top != 0 {
        assert(clamped * usage * 1_000_000 <= (total * top) * 1_000_000) by (nonlinear_arith)
            requires
                0 <= clamped <= top,
                0 <= usage <= total,
        ;
        assert(clamped * usage * 1_000_000 / (total * top) <= 1_000_000) by (nonlinear_arith)
            requires
                clamped * usage * 1_000_000 <= (total * top) * 1_000_000,
                total * top > 0,
        ;
        assert(clamped * usage * 1_000_000 / (total * top) >= 0) by (nonlinear_arith)
            requires
                clamped >= 0,
                usage >= 0,
                total * top > 0,
        ;
    }
}

proof fn lemma_weighted_nonneg(s: Seq<(String, u64)>, off: int, freqs: Seq<u32>, n: int)
    ensures
        weighted_freq(s, off, freqs, n) >= 0,
    decreases n,
{
    if n > 0 {
        lemma_weighted_nonneg(s, off, freqs, n - 1);
        let r = s[off + n - 1].1 as int;
        let f = freqs[n - 1] as int;
        assert(r * f >= 0) by (nonlinear_arith)
            requires
                r >= 0,
                f >= 0,
        ;
    }
}

/// Whether a state name marks an inactive state.
pub fn is_idle_name(name: &String) -> (r: bool)
    ensures
        r == is_idle_state(name@),
{
    str_eq(name.as_str(), "IDLE") || str_eq(name.as_str(), "DOWN") || str_eq(name.as_str(), "OFF")
}

/// Index of the first active state of a residency list (its length if none).
pub fn first_active_index(items: &Vec<(String, u64)>) -> (r: usize)
    ensures
        r == first_active(items@),
        r <= items@.len(),
{
    let n = items.len();
    let ghost s = items@;
    let mut offset: usize = 0;
    while offset < n && is_idle_name(&items[offset].0)
        invariant
            n == s.len(),
            s == items@,
            offset <= n,
            first_active_from(s, 0) == first_active_from(s, offset as nat),
        decreases n - offset,
    {
        offset = offset + 1;
    }
    proof {
        lemma_first_active_bounds(s, 0);
    }
    offset
}

/// Whether a residency list fits a frequency table as `calc_freq` needs.
pub fn residencies_fit_table(items: &Vec<(String, u64)>, freqs: &Vec<u32>) -> (r: bool)
    ensures
        r == residencies_fit(items@, freqs@),
{
    let offset = first_active_index(items);
    freqs.len() > 0 && items.len() > freqs.len() && freqs.len() <= items.len() - offset
        && items.len() <= 0x7fff_ffff
}

fn mul_div_step(q: u128, r: u128, c: u128, y: u128, d: u128) -> (res: (u128, u128))
    requires
        r < d,
        y <= d,
        c < 0x10_0000,
        d < 0x10_0000_0000_0000_0000_0000_0000,
        q <= 0xffff_ffff_ffff_ffff,
    ensures
        res.0 * d + res.1 == (q * d + r) * 0x10_0000 + c * y,
        res.1 < d,
        res.0 <= q * 0x10_0000 + 0x20_0000,
{
    proof {
        assert(r * 0x10_0000 + c * y < 0x20_0000 * d) by (nonlinear_arith)
            requires
                r < d,
                y <= d,
                c < 0x10_0000,
        ;
    }
    let t = r * 0x10_0000 + c * y;
    let qt = t / d;
    let rt = t % d;
    proof {
        assert(t == qt * d + rt && rt < d) by (nonlinear_arith)
            requires
                d > 0,
                qt == t / d,
                rt == t % d,
        ;
        assert(qt <= 0x20_0000) by (nonlinear_arith)
            requires
                t < 0x20_0000 * d,
                qt == t / d,
                d > 0,
        ;
        assert((q * 0x10_0000 + qt) * d + rt == (q * d + r) * 0x10_0000 + c * y) by (nonlinear_arith)
            requires
                t == qt * d + rt,
                t == r * 0x10_0000 + c * y,
        ;
    }
    (q * 0x10_0000 + qt, rt)
}

/// `x * y / d` rounded down, for `x < 2^60` and `y <= d`, without overflow.
fn mul_div(x: u64, y: u128, d: u128) -> (r: u128)
    requires
        x < 0x1000_0000_0000_0000,
        y <= d,
        0 < d < 0x10_0000_0000_0000_0000_0000_0000,
    ensures
        r == (x as int * y as int) / (d as int),
{
    let c2 = (x / 0x100_0000_0000) as u128;
    let c1 = ((x / 0x10_0000) % 0x10_0000) as u128;
    let c0 = (x % 0x10_0000) as u128;
    assert(x == c2 * 0x100_0000_0000 + c1 * 0x10_0000 + c0);
    let (q1, r1) = mul_div_step(0, 0, c2, y, d);
    let (q2, r2) = mul_div_step(q1, r1, c1, y, d);
    let (q3, r3) = mul_div_step(q2, r2, c0, y, d);
    proof {
        assert(q3 * d + r3 == (x as int) * (y as int)) by (nonlinear_arith)
            requires
                q1 * d + r1 == c2 * y,
                q2 * d + r2 == (q1 * d + r1) * 0x10_0000 + c1 * y,
                q3 * d + r3 == (q2 * d + r2) * 0x10_0000 + c0 * y,
                x == c2 * 0x100_0000_0000 + c1 * 0x10_0000 + c0,
        ;
        lemma_fundamental_div_mod_converse((x as int) * (y as int), d as int, q3 as int, r3 as int);
    }
    q3
}

/// Average frequency (MHz) and share of the highest frequency (ppm) of one domain,
/// from its residency list and its ascending frequency table. The states before the
/// first active one count only toward the total residency.
pub fn calc_freq(items: &Vec<(String, u64)>, freqs: &Vec<u32>) -> (r: (u32, u64))
    requires
        residencies_fit(items@, freqs@),
    ensures
        r.0 == avg_freq_spec(items@, freqs@),
        r.1 == from_max_ppm_spec(items@, freqs@),
{
    let n = items.len();
    let count = freqs.len();
    let ghost s = items@;

    let offset = first_active_index(items);

    let mut total: u128 = 0;
    let mut i: usize = 0;
    while i < n
        invariant
            n == s.len(),
            s == items@,
            n <= i32::MAX,
            i <= n,
            total == residency_sum(s, 0, i as int),
            total <= i * 0xffff_ffff_ffff_ffffu64,
        decreases n - i,
    {
        total = total + items[i].1 as u128;
        i = i + 1;
    }

    let mut usage: u128 = 0;
    let mut i: usize = offset;
    while i < n
        invariant
            n == s.len(),
            s == items@,
            n <= i32::MAX,
            offset <= i <= n,
            usage == residency_sum(s, offset as int, i as int),
            usage <= (i - offset) * 0xffff_ffff_ffff_ffffu64,
        decreases n - i,
    {
        usage = usage + items[i].1 as u128;
        i = i + 1;
    }

    let mut weighted: u128 = 0;
    let mut selected: u128 = 0;
    let mut k: usize = 0;
    while k < count
        invariant
            n == s.len(),
            s == items@,
            count == freqs@.len(),
            n <= i32::MAX,
            offset + count <= n,
            k <= count,
            weighted == weighted_freq(s, offset as int, freqs@, k as int),
            selected == residency_sum(s, offset as int, offset + k),
            selected <= k * 0xffff_ffff_ffff_ffffu64,
            weighted <= selected * 0xffff_ffffu64,
        decreases count - k,
    {
        let r = items[offset + k].1;
        let f = freqs[k];
        proof {
            assert((r as int) * (f as int) <= (r as int) * 0xffff_ffff) by (nonlinear_arith)
                requires
                    f <= 0xffff_ffffu32,
                    r >= 0,
            ;
            assert(selected * 0xffff_ffffu64 <= (k * 0xffff_ffff_ffff_ffffu64) * 0xffff_ffffu64)
                by (nonlinear_arith)
                requires
                    selected <= k * 0xffff_ffff_ffff_ffffu64,
            ;
            assert((k * 0xffff_ffff_ffff_ffffu64) * 0xffff_ffffu64 <= 0x7fff_ffff * 0xffff_ffff_ffff_ffffu64
                * 0xffff_ffffu64) by (nonlinear_arith)
                requires
                    k <= 0x7fff_ffff,
            ;
        }
        weighted = weighted + (r as u128) * (f as u128);
        selected = selected + r as u128;
        k = k + 1;
    }

    proof {
        lemma_sum_split(s, offset as int, offset + count, n as int);
        lemma_sum_nonneg(s, offset + count, n as int);
        lemma_sum_split(s, 0, offset as int, n as int);
        lemma_sum_nonneg(s, 0, offset as int);
        assert(weighted <= usage * 0xffff_ffffu64) by (nonlinear_arith)
            requires
                weighted <= selected * 0xffff_ffffu64,
                selected <= usage,
        ;
    }

    let avg: u32 = if usage == 0 {
        0
    } else {
        proof {
            assert((weighted as int) / (usage as int) <= 0xffff_ffff) by (nonlinear_arith)
                requires
                    weighted <= usage * 0xffff_ffffu64,
                    usage > 0,
            ;
        }
        (weighted / usage) as u32
    };

    let min_freq = freqs[0];
    let max_freq = freqs[count - 1];
    let clamped: u64 = if avg >= min_freq {
        avg as u64
    } else {
        min_freq as u64
    };
    assert(clamped == max_int(avg_freq_spec(s, freqs@), freqs@[0] as int));
    assert(usage == active_residency(s) && total == total_residency(s));
    let from_max: u64 = if total == 0 || max_freq == 0 {
        assert(total * max_freq == 0) by (nonlinear_arith)
            requires
                total == 0 || max_freq == 0,
        ;
        0
    } else {
        proof {
            assert(total <= 0x7fff_ffff * 0xffff_ffff_ffff_ffffu64) by (nonlinear_arith)
                requires
                    total <= n * 0xffff_ffff_ffff_ffffu64,
                    n <= 0x7fff_ffff,
            ;
        }
        let x = clamped * PPM;
        let part = mul_div(x, usage, total);
        proof {
            assert((x as int) * (usage as int) / (total as int) <= x) by (nonlinear_arith)
                requires
                    usage <= total,
                    total > 0,
            ;
            lemma_div_denominator((x as int) * (usage as int), total as int, max_freq as int);
            assert((x as int) * (usage as int) == clamped * usage * PPM) by (nonlinear_arith)
                requires
                    x == clamped * PPM,
            ;
            assert(total * max_freq == max_freq * total) by (nonlinear_arith);
            assert(part / (max_freq as u128) <= x) by (nonlinear_arith)
                requires
                    part <= x,
                    max_freq > 0,
            ;
            assert(total * max_freq != 0) by (nonlinear_arith)
                requires
                    total > 0,
                    max_freq > 0,
            ;
            assert(part / (max_freq as u128) == zero_div_spec(clamped * usage * PPM, total * max_freq));
        }
        (part / max_freq as u128) as u64
    };
    (avg, from_max)
}

// ---------------------------------------------------------------------------
// Per-core results of one window

/// Sum of the frequencies of the first `n` per-core results.
pub open spec fn freq_total(items: Seq<(u32, u64)>, n: int) -> int
    decreases n,
{
    if n <= 0 {
        0
    } else {
        freq_total(items, n - 1) + items[n - 1].0
    }
}

/// Sum of the shares of the first `n` per-core results.
pub open spec fn share_total(items: Seq<(u32, u64)>, n: int) -> int
    decreases n,
{
    if n <= 0 {
        0
    } else {
        share_total(items, n - 1) + items[n - 1].1
    }
}

/// Mean over per-core results: the frequency is raised to the lowest table
/// frequency; an empty list gives that lowest frequency and a zero share.
pub open spec fn freq_final_spec(items: Seq<(u32, u64)>, freqs: Seq<u32>) -> (u32, u64) {
    (
        max_int(zero_div_spec(freq_total(items, items.len() as int), items.len() as int), freqs[0] as int) as u32,
        zero_div_spec(share_total(items, items.len() as int), items.len() as int) as u64,
    )
}

/// Combines the per-core results of one domain into the domain's frequency and share.
pub fn calc_freq_final(items: &Vec<(u32, u64)>, freqs: &Vec<u32>) -> (r: (u32, u64))
    requires
        freqs.len() > 0,
    ensures
        r == freq_final_spec(items@, freqs@),
        r.0 as int == max_int(zero_div_spec(freq_total(items@, items@.len() as int), items@.len() as int), freqs@[0] as int),
        r.1 as int == zero_div_spec(share_total(items@, items@.len() as int), items@.len() as int),
{
    let n = items.len();
    let mut fsum: u128 = 0;
    let mut psum: u128 = 0;
    let mut i: usize = 0;
    while i < n
        invariant
            n == items@.len(),
            i <= n,
            fsum == freq_total(items@, i as int),
            psum == share_total(items@, i as int),
            fsum <= i * 0xffff_ffffu64,
            psum <= i * 0xffff_ffff_ffff_ffffu64,
        decreases n - i,
    {
        proof {
            assert(i * 0xffff_ffff_ffff_ffffu64 + 0xffff_ffff_ffff_ffffu64 <= 0xffff_ffff_ffff_ffffu64
                * 0x1_0000_0000_0000_0000) by (nonlinear_arith)
                requires
                    i < 0xffff_ffff_ffff_ffffu64,
            ;
        }
        fsum = fsum + items[i].0 as u128;
        psum = psum + items[i].1 as u128;
        i = i + 1;
    }
    let min_freq = freqs[0];
    let (avg_freq, avg_share): (u32, u64) = if n == 0 {
        (0, 0)
    } else {
        proof {
            assert((fsum as int) / (n as int) <= 0xffff_ffff) by (nonlinear_arith)
                requires
                    fsum <= n * 0xffff_ffffu64,
                    n > 0,
            ;
            assert((psum as int) / (n as int) <= 0xffff_ffff_ffff_ffff) by (nonlinear_arith)
                requires
                    psum <= n * 0xffff_ffff_ffff_ffffu64,
                    n > 0,
            ;
        }
        ((fsum / n as u128) as u32, (psum / n as u128) as u64)
    };
    let freq = if avg_freq >= min_freq {
        avg_freq
    } else {
        min_freq
    };
    (freq, avg_share)
}

// ---------------------------------------------------------------------------
// Energy counters

/// A power in watts, held as the exact fraction `num / den` (zero when `den` is zero).
#[derive(Clone, Copy, Debug, PartialEq, Eq)]
pub struct Watts {
    pub num: u128,
    pub den: u128,
}

/// Energy units per joule for the unit labels of energy counters; zero for any other label.
pub open spec fn energy_scale(unit: Seq<char>) -> int {
    if unit == "mJ"@ {
        1_000
    } else if unit == "uJ"@ {
        1_000_000
    } else if unit == "nJ"@ {
        1_000_000_000
    } else {
        0
    }
}

/// Watts, as a fraction, from an energy count in `1 / scale` joules over `duration_ms`
/// milliseconds: `count / (duration_ms / 1000) / scale`.
pub open spec fn watts_spec(count: int, scale: int, duration_ms: int) -> (int, int) {
    (count * 1000, duration_ms * scale)
}

/// Largest numerator that `cfio_watts` produces.
pub open spec fn watts_num_bound() -> int {
    0xffff_ffff_ffff_ffffu64 * 1000
}

/// The energy label was none of `mJ`, `uJ` or `nJ`.
#[derive(Clone, Copy, Debug, PartialEq, Eq)]
pub struct UnitError;

/// Converts an energy count with its unit label, accumulated over `duration` milliseconds,
/// into watts.
pub fn cfio_watts(value: u64, unit: &str, duration: u64) -> (r: Result<Watts, UnitError>)
    ensures
        r is Err <==> energy_scale(unit@) == 0,
        r matches Ok(w) ==> w.num == watts_spec(value as int, energy_scale(unit@), duration as int).0
            && w.den == watts_spec(value as int, energy_scale(unit@), duration as int).1,
{
    let scale: u128 = if str_eq(unit, "mJ") {
        1_000
    } else if str_eq(unit, "uJ") {
        1_000_000
    } else if str_eq(unit, "nJ") {
        1_000_000_000
    } else {
        return Err(UnitError);
    };
    Ok(Watts { num: value as u128 * 1000, den: duration as u128 * scale })
}

/// Microwatts in a fraction of watts, rounded down and capped at `u64::MAX`.
pub open spec fn micros_spec(num: int, den: int) -> u64 {
    let v = zero_div_spec(num * 1_000_000, den);
    if v > u64::MAX {
        u64::MAX
    } else {
        v as u64
    }
}

impl Watts {
    /// This power in microwatts, rounded down.
    pub fn micros(&self) -> (r: u64)
        requires
            self.num <= watts_num_bound(),
        ensures
            r == micros_spec(self.num as int, self.den as int),
    {
        if self.den == 0 {
            return 0;
        }
        let v = self.num * 1_000_000 / self.den;
        if v > u64::MAX as u128 {
            u64::MAX
        } else {
            v as u64
        }
    }
}

/// Holding the energy count fixed, halving the duration doubles the power: the
/// fraction for `duration_ms` is twice the fraction for `2 * duration_ms`.
pub proof fn lemma_watts_halving(count: int, scale: int, duration_ms: int)
    ensures
        ({
            let (n1, d1) = watts_spec(count, scale, duration_ms);
            let (n2, d2) = watts_spec(count, scale, 2 * duration_ms);
            n1 * d2 == 2 * n2 * d1
        }),
{
    assert((count * 1000) * (2 * duration_ms * scale) == 2 * (count * 1000) * (duration_ms * scale))
        by (nonlinear_arith);
}

// ---------------------------------------------------------------------------
// Records

/// Average temperatures, in thousandths of a degree Celsius (zero when unknown).
#[derive(Clone, Copy, Debug, PartialEq, Eq, Structural)]
pub struct TempMetrics {
    pub cpu_temp_avg: u32,
    pub gpu_temp_avg: u32,
}

/// Memory figures, in bytes.
#[derive(Clone, Copy, Debug, PartialEq, Eq, Structural)]
pub struct MemMetrics {
    pub ram_total: u64,
    pub ram_usage: u64,
    pub swap_total: u64,
    pub swap_usage: u64,
}

/// One reporting cycle's figures. Each usage pair is (frequency in MHz, share of the
/// highest frequency in ppm); each power is in microwatts. Zero stands for unknown.
#[derive(Clone, Copy, Debug)]
pub struct Metrics {
    pub temp: TempMetrics,
    pub memory: MemMetrics,
    pub ecpu_usage: (u32, u64),
    pub pcpu_usage: (u32, u64),
    pub gpu_usage: (u32, u64),
    pub cpu_power: u64,
    pub gpu_power: u64,
    pub ane_power: u64,
    pub all_power: u64,
    pub sys_power: u64,
    pub ram_power: u64,
    pub gpu_ram_power: u64,
}

pub open spec fn zero_temp() -> TempMetrics {
    TempMetrics { cpu_temp_avg: 0, gpu_temp_avg: 0 }
}

pub open spec fn zero_mem() -> MemMetrics {
    MemMetrics { ram_total: 0, ram_usage: 0, swap_total: 0, swap_usage: 0 }
}

impl TempMetrics {
    pub fn zero() -> (r: TempMetrics)
        ensures
            r == zero_temp(),
    {
        TempMetrics { cpu_temp_avg: 0, gpu_temp_avg: 0 }
    }
}

impl MemMetrics {
    pub fn zero() -> (r: MemMetrics)
        ensures
            r == zero_mem(),
    {
        MemMetrics { ram_total: 0, ram_usage: 0, swap_total: 0, swap_usage: 0 }
    }
}

// ---------------------------------------------------------------------------
// One window of channel samples

/// One channel of a delta snapshot: its names, its unit label, its state residencies
/// (empty for a counter channel) and its integer value (energy, for energy channels).
#[derive(Debug)]
pub struct IOReportIteratorItem {
    pub group: String,
    pub subgroup: String,
    pub channel: String,
    pub unit: String,
    pub residencies: Vec<(String, u64)>,
    pub energy: u64,
}

/// The power rails that energy channels report.
#[derive(Clone, Copy, Debug, PartialEq, Eq, Structural)]
pub enum PowerRail {
    Cpu,
    Gpu,
    Ane,
    Ram,
    GpuRam,
}

pub open spec fn is_core_states(it: IOReportIteratorItem) -> bool {
    it.group@ == "CPU Stats"@ && it.subgroup@ == "CPU Core Performance States"@
}

/// A per-core state channel of an efficiency core.
pub open spec fn is_ecpu_item(it: IOReportIteratorItem) -> bool {
    is_core_states(it) && is_infix("ECPU"@, it.channel@)
}

/// A per-core state channel of a performance core.
pub open spec fn is_pcpu_item(it: IOReportIteratorItem) -> bool {
    is_core_states(it) && !is_infix("ECPU"@, it.channel@) && is_infix("PCPU"@, it.channel@)
}

/// The GPU's performance-state channel.
pub open spec fn is_gpu_item(it: IOReportIteratorItem) -> bool {
    it.group@ == "GPU Stats"@ && it.subgroup@ == "GPU Performance States"@ && it.channel@
        == "GPUPH"@
}

/// The rail that an energy channel counts toward, if any.
pub open spec fn rail_of(it: IOReportIteratorItem) -> Option<PowerRail> {
    if it.group@ != "Energy Model"@ {
        None
    } else if it.channel@ == "GPU Energy"@ {
        Some(PowerRail::Gpu)
    } else if is_suffix("CPU Energy"@, it.channel@) {
        Some(PowerRail::Cpu)
    } else if is_prefix("ANE"@, it.channel@) {
        Some(PowerRail::Ane)
    } else if is_prefix("DRAM"@, it.channel@) {
        Some(PowerRail::Ram)
    } else if is_prefix("GPU SRAM"@, it.channel@) {
        Some(PowerRail::GpuRam)
    } else {
        None
    }
}

/// The GPU table without its powered-off entry.
pub open spec fn gpu_table(soc: SocInfo) -> Seq<u32> {
    soc.gpu_freqs@.subrange(1, soc.gpu_freqs@.len() as int)
}

pub open spec fn calc_freq_spec(s: Seq<(String, u64)>, freqs: Seq<u32>) -> (u32, u64) {
    (avg_freq_spec(s, freqs) as u32, from_max_ppm_spec(s, freqs) as u64)
}

/// Every state channel of the window fits the frequency table of its domain.
pub open spec fn window_fits(items: Seq<IOReportIteratorItem>, soc: SocInfo) -> bool {
    forall|i: int|
        0 <= i < items.len() ==> {
            &&& is_ecpu_item(#[trigger] items[i]) ==> residencies_fit(
                items[i].residencies@,
                soc.ecpu_freqs@,
            )
            &&& is_pcpu_item(items[i]) ==> residencies_fit(items[i].residencies@, soc.pcpu_freqs@)
            &&& is_gpu_item(items[i]) ==> soc.gpu_freqs@.len() >= 1 && residencies_fit(
                items[i].residencies@,
                gpu_table(soc),
            )
        }
}

/// Per-core results, in channel order, of the first `n` channels of one CPU domain.
pub open spec fn core_results(
    items: Seq<IOReportIteratorItem>,
    freqs: Seq<u32>,
    efficiency: bool,
    n: int,
) -> Seq<(u32, u64)>
    decreases n,
{
    if n <= 0 {
        Seq::empty()
    } else {
        let prev = core_results(items, freqs, efficiency, n - 1);
        let it = items[n - 1];
        if (efficiency && is_ecpu_item(it)) || (!efficiency && is_pcpu_item(it)) {
            prev.push(calc_freq_spec(it.residencies@, freqs))
        } else {
            prev
        }
    }
}

/// Result of the last GPU channel among the first `n`, or zeros if none.
pub open spec fn gpu_result(items: Seq<IOReportIteratorItem>, freqs: Seq<u32>, n: int) -> (
    u32,
    u64,
)
    decreases n,
{
    if n <= 0 {
        (0, 0)
    } else if is_gpu_item(items[n - 1]) {
        calc_freq_spec(items[n - 1].residencies@, freqs)
    } else {
        gpu_result(items, freqs, n - 1)
    }
}

pub open spec fn sat_add(a: u64, b: u64) -> u64 {
    if a + b > u64::MAX {
        u64::MAX
    } else {
        (a + b) as u64
    }
}

/// Microwatts of one energy channel over `duration` milliseconds.
pub open spec fn channel_micros(it: IOReportIteratorItem, duration: u64) -> u64 {
    let w = watts_spec(it.energy as int, energy_scale(it.unit@), duration as int);
    micros_spec(w.0, w.1)
}

/// Power of one rail over the first `n` channels, in microwatts (saturating sum). A
/// channel with an unknown unit label contributes nothing.
pub open spec fn rail_power(
    items: Seq<IOReportIteratorItem>,
    rail: PowerRail,
    duration: u64,
    n: int,
) -> u64
    decreases n,
{
    if n <= 0 {
        0
    } else {
        let prev = rail_power(items, rail, duration, n - 1);
        if rail_of(items[n - 1]) == Some(rail) && energy_scale(items[n - 1].unit@) != 0 {
            sat_add(prev, channel_micros(items[n - 1], duration))
        } else {
            prev
        }
    }
}

/// The figures of one window; temperatures, memory, total and system power stay zero.
pub open spec fn window_spec(items: Seq<IOReportIteratorItem>, soc: SocInfo, duration: u64) -> Metrics {
    let n = items.len() as int;
    Metrics {
        temp: zero_temp(),
        memory: zero_mem(),
        ecpu_usage: freq_final_spec(core_results(items, soc.ecpu_freqs@, true, n), soc.ecpu_freqs@),
        pcpu_usage: freq_final_spec(core_results(items, soc.pcpu_freqs@, false, n), soc.pcpu_freqs@),
        gpu_usage: gpu_result(items, gpu_table(soc), n),
        cpu_power: rail_power(items, PowerRail::Cpu, duration, n),
        gpu_power: rail_power(items, PowerRail::Gpu, duration, n),
        ane_power: rail_power(items, PowerRail::Ane, duration, n),
        all_power: 0,
        sys_power: 0,
        ram_power: rail_power(items, PowerRail::Ram, duration, n),
        gpu_ram_power: rail_power(items, PowerRail::GpuRam, duration, n),
    }
}

/// Which state domain a channel belongs to: 1 efficiency cores, 2 performance cores,
/// 3 GPU, 0 none.
fn domain_of_item(it: &IOReportIteratorItem) -> (r: u8)
    ensures
        r == 1 <==> is_ecpu_item(*it),
        r == 2 <==> is_pcpu_item(*it),
        r == 3 <==> is_gpu_item(*it),
        r <= 3,
{
    proof {
        reveal_strlit("CPU Stats");
        reveal_strlit("GPU Stats");
        assert("CPU Stats"@[0] != "GPU Stats"@[0]);
    }
    if str_eq(it.group.as_str(), "CPU Stats") && str_eq(
        it.subgroup.as_str(),
        "CPU Core Performance States",
    ) {
        if contains(it.channel.as_str(), "ECPU") {
            return 1;
        }
        if contains(it.channel.as_str(), "PCPU") {
            return 2;
        }
        return 0;
    }
    if str_eq(it.group.as_str(), "GPU Stats") && str_eq(
        it.subgroup.as_str(),
        "GPU Performance States",
    ) && str_eq(it.channel.as_str(), "GPUPH") {
        return 3;
    }
    0
}

/// The rail that an energy channel counts toward, if any.
pub fn rail_of_item(it: &IOReportIteratorItem) -> (r: Option<PowerRail>)
    ensures
        r == rail_of(*it),
{
    if !str_eq(it.group.as_str(), "Energy Model") {
        None
    } else if str_eq(it.channel.as_str(), "GPU Energy") {
        Some(PowerRail::Gpu)
    } else if ends_with(it.channel.as_str(), "CPU Energy") {
        Some(PowerRail::Cpu)
    } else if starts_with(it.channel.as_str(), "ANE") {
        Some(PowerRail::Ane)
    } else if starts_with(it.channel.as_str(), "DRAM") {
        Some(PowerRail::Ram)
    } else if starts_with(it.channel.as_str(), "GPU SRAM") {
        Some(PowerRail::GpuRam)
    } else {
        None
    }
}

fn copy_tail(v: &Vec<u32>) -> (r: Vec<u32>)
    requires
        v@.len() >= 1,
    ensures
        r@ == v@.subrange(1, v@.len() as int),
{
    let mut out: Vec<u32> = Vec::new();
    let mut i: usize = 1;
    while i < v.len()
        invariant
            1 <= i <= v@.len(),
            out@ == v@.subrange(1, i as int),
        decreases v@.len() - i,
    {
        out.push(v[i]);
        i = i + 1;
        assert(out@ =~= v@.subrange(1, i as int));
    }
    out
}

fn add_sat(a: u64, b: u64) -> (r: u64)
    ensures
        r == sat_add(a, b),
{
    a.saturating_add(b)
}

/// Derives one window's frequencies and powers from its channels, `duration` being
/// the window's length in milliseconds. An energy channel with an unknown unit label
/// is left out of its rail's power; the rest is derived as usual.
pub fn derive_window(items: &Vec<IOReportIteratorItem>, soc: &SocInfo, duration: u64) -> (r: Metrics)
    requires
        soc.wf(),
        window_fits(items@, *soc),
    ensures
        r == window_spec(items@, *soc, duration),
{
    let n = items.len();
    let ghost s = items@;
    let gpu_freqs: Vec<u32> = if soc.gpu_freqs.len() >= 1 {
        copy_tail(&soc.gpu_freqs)
    } else {
        Vec::new()
    };
    let mut ecpu: Vec<(u32, u64)> = Vec::new();
    let mut pcpu: Vec<(u32, u64)> = Vec::new();
    let mut gpu_usage: (u32, u64) = (0, 0);
    let mut cpu_power: u64 = 0;
    let mut gpu_power: u64 = 0;
    let mut ane_power: u64 = 0;
    let mut ram_power: u64 = 0;
    let mut gpu_ram_power: u64 = 0;
    let mut i: usize = 0;
    while i < n
        invariant
            n == s.len(),
            s == items@,
            soc.wf(),
            window_fits(s, *soc),
            soc.gpu_freqs@.len() >= 1 ==> gpu_freqs@ == gpu_table(*soc),
            i <= n,
            ecpu@ == core_results(s, soc.ecpu_freqs@, true, i as int),
            pcpu@ == core_results(s, soc.pcpu_freqs@, false, i as int),
            gpu_usage == gpu_result(s, gpu_table(*soc), i as int),
            cpu_power == rail_power(s, PowerRail::Cpu, duration, i as int),
            gpu_power == rail_power(s, PowerRail::Gpu, duration, i as int),
            ane_power == rail_power(s, PowerRail::Ane, duration, i as int),
            ram_power == rail_power(s, PowerRail::Ram, duration, i as int),
            gpu_ram_power == rail_power(s, PowerRail::GpuRam, duration, i as int),
        decreases n - i,
    {
        let it = &items[i];
        assert(window_fits(s, *soc) ==> {
            &&& is_ecpu_item(s[i as int]) ==> residencies_fit(s[i as int].residencies@, soc.ecpu_freqs@)
            &&& is_pcpu_item(s[i as int]) ==> residencies_fit(s[i as int].residencies@, soc.pcpu_freqs@)
            &&& is_gpu_item(s[i as int]) ==> soc.gpu_freqs@.len() >= 1 && residencies_fit(
                s[i as int].residencies@,
                gpu_table(*soc),
            )
        });
        let domain = domain_of_item(it);
        if domain == 1 {
            ecpu.push(calc_freq(&it.residencies, &soc.ecpu_freqs));
        } else if domain == 2 {
            pcpu.push(calc_freq(&it.residencies, &soc.pcpu_freqs));
        } else if domain == 3 {
            gpu_usage = calc_freq(&it.residencies, &gpu_freqs);
        }
        let rail = rail_of_item(it);
        match rail {
            Some(rail) => {
                match cfio_watts(it.energy, it.unit.as_str(), duration) {
                    Ok(w) => {
                        let uw = w.micros();
                        match rail {
                            PowerRail::Cpu => {
                                cpu_power = add_sat(cpu_power, uw);
                            },
                            PowerRail::Gpu => {
                                gpu_power = add_sat(gpu_power, uw);
                            },
                            PowerRail::Ane => {
                                ane_power = add_sat(ane_power, uw);
                            },
                            PowerRail::Ram => {
                                ram_power = add_sat(ram_power, uw);
                            },
                            PowerRail::GpuRam => {
                                gpu_ram_power = add_sat(gpu_ram_power, uw);
                            },
                        }
                    },
                    Err(_) => {},
                }
            },
            None => {},
        }
        proof {
            assert(ecpu@ =~= core_results(s, soc.ecpu_freqs@, true, i + 1));
            assert(pcpu@ =~= core_results(s, soc.pcpu_freqs@, false, i + 1));
        }
        i = i + 1;
    }
    let ecpu_usage = calc_freq_final(&ecpu, &soc.ecpu_freqs);
    let pcpu_usage = calc_freq_final(&pcpu, &soc.pcpu_freqs);
    Metrics {
        temp: TempMetrics::zero(),
        memory: MemMetrics::zero(),
        ecpu_usage,
        pcpu_usage,
        gpu_usage,
        cpu_power,
        gpu_power,
        ane_power,
        all_power: 0,
        sys_power: 0,
        ram_power,
        gpu_ram_power,
    }
}

/// Whether every state channel of a window fits its domain's frequency table, as
/// `derive_window` needs.
pub fn window_fits_soc(items: &Vec<IOReportIteratorItem>, soc: &SocInfo) -> (r: bool)
    ensures
        r == window_fits(items@, *soc),
{
    let n = items.len();
    let gpu_freqs: Vec<u32> = if soc.gpu_freqs.len() >= 1 {
        copy_tail(&soc.gpu_freqs)
    } else {
        Vec::new()
    };
    let mut i: usize = 0;
    while i < n
        invariant
            n == items@.len(),
            i <= n,
            soc.gpu_freqs@.len() >= 1 ==> gpu_freqs@ == gpu_table(*soc),
            forall|j: int|
                0 <= j < i ==> {
                    &&& is_ecpu_item(#[trigger] items@[j]) ==> residencies_fit(
                        items@[j].residencies@,
                        soc.ecpu_freqs@,
                    )
                    &&& is_pcpu_item(items@[j]) ==> residencies_fit(items@[j].residencies@, soc.pcpu_freqs@)
                    &&& is_gpu_item(items@[j]) ==> soc.gpu_freqs@.len() >= 1 && residencies_fit(
                        items@[j].residencies@,
                        gpu_table(*soc),
                    )
                },
        decreases n - i,
    {
        let it = &items[i];
        let domain = domain_of_item(it);
        let ok = if domain == 1 {
            residencies_fit_table(&it.residencies, &soc.ecpu_freqs)
        } else if domain == 2 {
            residencies_fit_table(&it.residencies, &soc.pcpu_freqs)
        } else if domain == 3 {
            soc.gpu_freqs.len() >= 1 && residencies_fit_table(&it.residencies, &gpu_freqs)
        } else {
            true
        };
        if !ok {
            return false;
        }
        i = i + 1;
    }
    true
}

// ---------------------------------------------------------------------------
// Several windows

/// The averaged fields of a window record, by number: 0 to 5 are the usage pairs
/// (efficiency, performance, GPU; frequency then share), 6 to 10 the powers (CPU,
/// GPU, ANE, RAM, GPU RAM).
pub open spec fn field_value(m: Metrics, k: int) -> int {
    if k == 0 {
        m.ecpu_usage.0 as int
    } else if k == 1 {
        m.ecpu_usage.1 as int
    } else if k == 2 {
        m.pcpu_usage.0 as int
    } else if k == 3 {
        m.pcpu_usage.1 as int
    } else if k == 4 {
        m.gpu_usage.0 as int
    } else if k == 5 {
        m.gpu_usage.1 as int
    } else if k == 6 {
        m.cpu_power as int
    } else if k == 7 {
        m.gpu_power as int
    } else if k == 8 {
        m.ane_power as int
    } else if k == 9 {
        m.ram_power as int
    } else {
        m.gpu_ram_power as int
    }
}

pub open spec fn field_bound(k: int) -> int {
    if k == 0 || k == 2 || k == 4 {
        u32::MAX as int
    } else {
        u64::MAX as int
    }
}

/// Sum of field `k` over the first `n` window records.
pub open spec fn field_total(ms: Seq<Metrics>, k: int, n: int) -> int
    decreases n,
{
    if n <= 0 {
        0
    } else {
        field_total(ms, k, n - 1) + field_value(ms[n - 1], k)
    }
}

/// Mean of field `k` over the window records, rounded down (zero when there are none).
pub open spec fn field_mean(ms: Seq<Metrics>, k: int) -> int {
    zero_div_spec(field_total(ms, k, ms.len() as int), ms.len() as int)
}

fn field_of(m: &Metrics, k: u8) -> (r: u64)
    ensures
        r == field_value(*m, k as int),
        r <= field_bound(k as int),
{
    if k == 0 {
        m.ecpu_usage.0 as u64
    } else if k == 1 {
        m.ecpu_usage.1
    } else if k == 2 {
        m.pcpu_usage.0 as u64
    } else if k == 3 {
        m.pcpu_usage.1
    } else if k == 4 {
        m.gpu_usage.0 as u64
    } else if k == 5 {
        m.gpu_usage.1
    } else if k == 6 {
        m.cpu_power
    } else if k == 7 {
        m.gpu_power
    } else if k == 8 {
        m.ane_power
    } else if k == 9 {
        m.ram_power
    } else {
        m.gpu_ram_power
    }
}

fn mean_field(ms: &Vec<Metrics>, k: u8) -> (r: u64)
    ensures
        r == field_mean(ms@, k as int),
        r <= field_bound(k as int),
{
    let n = ms.len();
    let ghost b = field_bound(k as int);
    let mut sum: u128 = 0;
    let mut i: usize = 0;
    while i < n
        invariant
            n == ms@.len(),
            b == field_bound(k as int),
            i <= n,
            sum == field_total(ms@, k as int, i as int),
            sum <= i * b,
        decreases n - i,
    {
        let v = field_of(&ms[i], k);
        proof {
            assert(i * b + b <= 0xffff_ffff_ffff_ffffu64 * 0x1_0000_0000_0000_0000) by (nonlinear_arith)
                requires
                    i < 0xffff_ffff_ffff_ffffu64,
                    b <= 0xffff_ffff_ffff_ffffu64,
            ;
            assert(i * b + b == (i + 1) * b) by (nonlinear_arith);
        }
        sum = sum + v as u128;
        i = i + 1;
    }
    if n == 0 {
        0
    } else {
        proof {
            assert((sum as int) / (n as int) <= b) by (nonlinear_arith)
                requires
                    sum <= n * b,
                    n > 0,
            ;
        }
        (sum / n as u128) as u64
    }
}

/// The mean, field by field, of several window records; temperatures, memory,
/// total and system power stay zero.
pub open spec fn windows_mean_spec(ms: Seq<Metrics>) -> Metrics {
    Metrics {
        temp: zero_temp(),
        memory: zero_mem(),
        ecpu_usage: (field_mean(ms, 0) as u32, field_mean(ms, 1) as u64),
        pcpu_usage: (field_mean(ms, 2) as u32, field_mean(ms, 3) as u64),
        gpu_usage: (field_mean(ms, 4) as u32, field_mean(ms, 5) as u64),
        cpu_power: field_mean(ms, 6) as u64,
        gpu_power: field_mean(ms, 7) as u64,
        ane_power: field_mean(ms, 8) as u64,
        all_power: 0,
        sys_power: 0,
        ram_power: field_mean(ms, 9) as u64,
        gpu_ram_power: field_mean(ms, 10) as u64,
    }
}

/// Averages the records of several windows, field by field.
pub fn average_windows(ms: &Vec<Metrics>) -> (r: Metrics)
    ensures
        r == windows_mean_spec(ms@),
{
    let ecpu_freq = mean_field(ms, 0);
    let ecpu_share = mean_field(ms, 1);
    let pcpu_freq = mean_field(ms, 2);
    let pcpu_share = mean_field(ms, 3);
    let gpu_freq = mean_field(ms, 4);
    let gpu_share = mean_field(ms, 5);
    Metrics {
        temp: TempMetrics::zero(),
        memory: MemMetrics::zero(),
        ecpu_usage: (ecpu_freq as u32, ecpu_share),
        pcpu_usage: (pcpu_freq as u32, pcpu_share),
        gpu_usage: (gpu_freq as u32, gpu_share),
        cpu_power: mean_field(ms, 6),
        gpu_power: mean_field(ms, 7),
        ane_power: mean_field(ms, 8),
        all_power: 0,
        sys_power: 0,
        ram_power: mean_field(ms, 9),
        gpu_ram_power: mean_field(ms, 10),
    }
}

/// Completes an averaged record: temperatures are set, and memory too (zero when its
/// query failed); the total power is
/// CPU + GPU + ANE (saturating), and the system power is the controller's reading raised
/// to that total, or zero when there was no reading.
pub fn finish_metrics(
    avg: Metrics,
    memory: Option<MemMetrics>,
    temp: TempMetrics,
    sys_reading: Option<u64>,
) -> (r: Metrics)
    ensures
        r.temp == temp,
        r.memory == (match memory {
            Some(m) => m,
            None => zero_mem(),
        }),
        r.ecpu_usage == avg.ecpu_usage,
        r.pcpu_usage == avg.pcpu_usage,
        r.gpu_usage == avg.gpu_usage,
        r.cpu_power == avg.cpu_power,
        r.gpu_power == avg.gpu_power,
        r.ane_power == avg.ane_power,
        r.ram_power == avg.ram_power,
        r.gpu_ram_power == avg.gpu_ram_power,
        r.all_power == sat_add(sat_add(avg.cpu_power, avg.gpu_power), avg.ane_power),
        r.sys_power == match sys_reading {
            Some(v) => if v >= r.all_power { v } else { r.all_power },
            None => 0,
        },
{
    let all = add_sat(add_sat(avg.cpu_power, avg.gpu_power), avg.ane_power);
    let sys = match sys_reading {
        Some(v) => if v >= all {
            v
        } else {
            all
        },
        None => 0,
    };
    let memory = match memory {
        Some(m) => m,
        None => MemMetrics::zero(),
    };
    Metrics { temp, memory, all_power: all, sys_power: sys, ..avg }
}

// ---------------------------------------------------------------------------
// Temperatures

/// Sum and count of the non-zero readings among the first `n`.
pub open spec fn nonzero_total(s: Seq<u32>, n: int) -> int
    decreases n,
{
    if n <= 0 {
        0
    } else {
        nonzero_total(s, n - 1) + s[n - 1]
    }
}

pub open spec fn nonzero_count(s: Seq<u32>, n: int) -> int
    decreases n,
{
    if n <= 0 {
        0
    } else {
        nonzero_count(s, n - 1) + if s[n - 1] != 0 { 1int } else { 0int }
    }
}

/// Mean of the non-zero readings, rounded down; zero when there are none.
pub open spec fn mean_nonzero_spec(s: Seq<u32>) -> int {
    zero_div_spec(nonzero_total(s, s.len() as int), nonzero_count(s, s.len() as int))
}

/// Mean of the non-zero readings (zero readings are sensors that had nothing to say).
pub fn mean_nonzero(s: &Vec<u32>) -> (r: u32)
    ensures
        r == mean_nonzero_spec(s@),
{
    let n = s.len();
    let mut sum: u128 = 0;
    let mut count: u64 = 0;
    let mut i: usize = 0;
    while i < n
        invariant
            n == s@.len(),
            i <= n,
            sum == nonzero_total(s@, i as int),
            count == nonzero_count(s@, i as int),
            count <= i,
            sum <= count * 0xffff_ffffu64,
        decreases n - i,
    {
        let v = s[i];
        if v != 0 {
            proof {
                assert(count * 0xffff_ffffu64 + 0xffff_ffffu64 == (count + 1) * 0xffff_ffffu64)
                    by (nonlinear_arith);
            }
            sum = sum + v as u128;
            count = count + 1;
        }
        i = i + 1;
    }
    if count == 0 {
        0
    } else {
        proof {
            assert((sum as int) / (count as int) <= 0xffff_ffff) by (nonlinear_arith)
                requires
                    sum <= count * 0xffff_ffffu64,
                    count > 0,
            ;
        }
        (sum / count as u128) as u32
    }
}

/// CPU and GPU temperatures from the controller's sensors: each the mean of its
/// non-zero readings.
pub fn temps_from_readings(cpu: &Vec<u32>, gpu: &Vec<u32>) -> (r: TempMetrics)
    ensures
        r.cpu_temp_avg == mean_nonzero_spec(cpu@),
        r.gpu_temp_avg == mean_nonzero_spec(gpu@),
{
    TempMetrics { cpu_temp_avg: mean_nonzero(cpu), gpu_temp_avg: mean_nonzero(gpu) }
}

/// A sensor of the event bus that measures a CPU cluster.
pub open spec fn is_cpu_sensor_name(name: Seq<char>) -> bool {
    is_prefix("pACC MTR Temp Sensor"@, name) || is_prefix("eACC MTR Temp Sensor"@, name)
}

/// A sensor of the event bus that measures the GPU.
pub open spec fn is_gpu_sensor_name(name: Seq<char>) -> bool {
    is_prefix("GPU MTR Temp Sensor"@, name)
}

pub open spec fn sensor_matches(name: Seq<char>, cpu: bool) -> bool {
    if cpu {
        is_cpu_sensor_name(name)
    } else {
        !is_cpu_sensor_name(name) && is_gpu_sensor_name(name)
    }
}

/// Sum and count of the readings among the first `n` whose names match.
pub open spec fn named_total(s: Seq<(String, u32)>, cpu: bool, n: int) -> int
    decreases n,
{
    if n <= 0 {
        0
    } else {
        named_total(s, cpu, n - 1) + if sensor_matches(s[n - 1].0@, cpu) {
            s[n - 1].1 as int
        } else {
            0
        }
    }
}

pub open spec fn named_count(s: Seq<(String, u32)>, cpu: bool, n: int) -> int
    decreases n,
{
    if n <= 0 {
        0
    } else {
        named_count(s, cpu, n - 1) + if sensor_matches(s[n - 1].0@, cpu) {
            1int
        } else {
            0
        }
    }
}

pub open spec fn named_mean(s: Seq<(String, u32)>, cpu: bool) -> int {
    zero_div_spec(named_total(s, cpu, s.len() as int), named_count(s, cpu, s.len() as int))
}

fn name_matches(name: &String, cpu: bool) -> (r: bool)
    ensures
        r == sensor_matches(name@, cpu),
{
    let is_cpu = starts_with(name.as_str(), "pACC MTR Temp Sensor") || starts_with(
        name.as_str(),
        "eACC MTR Temp Sensor",
    );
    if cpu {
        is_cpu
    } else {
        !is_cpu && starts_with(name.as_str(), "GPU MTR Temp Sensor")
    }
}

fn named_mean_exec(s: &Vec<(String, u32)>, cpu: bool) -> (r: u32)
    ensures
        r == named_mean(s@, cpu),
{
    let n = s.len();
    let mut sum: u128 = 0;
    let mut count: u64 = 0;
    let mut i: usize = 0;
    while i < n
        invariant
            n == s@.len(),
            i <= n,
            sum == named_total(s@, cpu, i as int),
            count == named_count(s@, cpu, i as int),
            count <= i,
            sum <= count * 0xffff_ffffu64,
        decreases n - i,
    {
        if name_matches(&s[i].0, cpu) {
            proof {
                assert(count * 0xffff_ffffu64 + 0xffff_ffffu64 == (count + 1) * 0xffff_ffffu64)
                    by (nonlinear_arith);
            }
            sum = sum + s[i].1 as u128;
            count = count + 1;
        }
        i = i + 1;
    }
    if count == 0 {
        0
    } else {
        proof {
            assert((sum as int) / (count as int) <= 0xffff_ffff) by (nonlinear_arith)
                requires
                    sum <= count * 0xffff_ffffu64,
                    count > 0,
            ;
        }
        (sum / count as u128) as u32
    }
}

/// Readings ordered by sensor name.
pub open spec fn sorted_by_name(s: Seq<(String, u32)>) -> bool {
    forall|i: int, j: int| 0 <= i < j < s.len() ==> name_le(s[i].0@, s[j].0@)
}

/// Orders (name, reading) pairs by name.
pub fn sort_by_name(items: Vec<(String, u32)>) -> (r: Vec<(String, u32)>)
    ensures
        sorted_by_name(r@),
        r@.to_multiset() == items@.to_multiset(),
{
    let ghost orig = items@;
    let mut rest = items;
    let mut out: Vec<(String, u32)> = Vec::new();
    proof {
        out@.to_multiset_ensures();
        assert(out@.to_multiset() =~= Multiset::empty());
    }
    while rest.len() > 0
        invariant
            sorted_by_name(out@),
            out@.to_multiset().add(rest@.to_multiset()) == orig.to_multiset(),
        decreases rest@.len(),
    {
        let ghost before = rest@;
        let x = rest.remove(0);
        proof {
            assert(before.remove(0) =~= rest@);
            before.to_multiset_ensures();
            assert(before.remove(0).to_multiset() =~= before.to_multiset().remove(before[0]));
            assert(before.contains(x)) by {
                assert(before[0] == x);
            }
            assert(before.to_multiset().count(x) > 0);
            assert(before.to_multiset() =~= rest@.to_multiset().insert(x));
        }
        let mut j: usize = 0;
        while j < out.len() && name_le_exec(out[j].0.as_str(), x.0.as_str())
            invariant
                j <= out@.len(),
                forall|k: int| 0 <= k < j ==> name_le(#[trigger] out@[k].0@, x.0@),
            decreases out@.len() - j,
        {
            j = j + 1;
        }
        let ghost old_out = out@;
        proof {
            if j < old_out.len() {
                lemma_name_le_total(old_out[j as int].0@, x.0@);
            }
        }
        out.insert(j, x);
        proof {
            let n = out@;
            assert(n == old_out.insert(j as int, x));
            assert forall|a: int, b: int| 0 <= a < b < n.len() implies name_le(n[a].0@, n[b].0@) by {
                if b < j {
                    assert(n[a] == old_out[a] && n[b] == old_out[b]);
                } else if b == j {
                    assert(n[a] == old_out[a]);
                } else if a < j {
                    assert(n[a] == old_out[a] && n[b] == old_out[b - 1]);
                } else if a == j {
                    assert(n[b] == old_out[b - 1]);
                    if b - 1 > j {
                        lemma_name_le_trans(x.0@, old_out[j as int].0@, old_out[b - 1].0@);
                    }
                } else {
                    assert(n[a] == old_out[a - 1] && n[b] == old_out[b - 1]);
                }
            }
            assert(n.remove(j as int) =~= old_out);
            n.to_multiset_ensures();
            assert(n.remove(j as int).to_multiset() =~= n.to_multiset().remove(n[j as int]));
            assert(n.contains(x)) by {
                assert(n[j as int] == x);
            }
            assert(n.to_multiset().count(x) > 0);
            assert(n.to_multiset() =~= old_out.to_multiset().insert(x));
        }
    }
    proof {
        rest@.to_multiset_ensures();
    }
    assert(rest@.to_multiset() =~= Multiset::empty());
    out
}

/// CPU and GPU temperatures from the event bus's (name, reading) pairs: each the
/// mean of the readings whose names carry the cluster's prefix.
pub fn temps_from_named(readings: &Vec<(String, u32)>) -> (r: TempMetrics)
    ensures
        r.cpu_temp_avg == named_mean(readings@, true),
        r.gpu_temp_avg == named_mean(readings@, false),
{
    TempMetrics {
        cpu_temp_avg: named_mean_exec(readings, true),
        gpu_temp_avg: named_mean_exec(readings, false),
    }
}

/// Where the temperatures of a cycle come from.
#[derive(Clone, Copy, Debug, PartialEq, Eq, Structural)]
pub enum TempSource {
    /// The controller's temperature keys.
    Smc,
    /// The vendor temperature events of the event bus.
    Hid,
}

/// The controller is the authoritative source when it exposes at least one CPU
/// temperature key; otherwise the event bus is used.
pub fn temp_source(smc_cpu_keys: usize) -> (r: TempSource)
    ensures
        r == (if smc_cpu_keys > 0 { TempSource::Smc } else { TempSource::Hid }),
{
    if smc_cpu_keys > 0 {
        TempSource::Smc
    } else {
        TempSource::Hid
    }
}

// ---------------------------------------------------------------------------
// Memory

/// Page counts of the virtual-memory statistics that the usage figure reads.
#[derive(Clone, Copy, Debug, PartialEq, Eq, Structural)]
pub struct VmCounts {
    pub active: u32,
    pub inactive: u32,
    pub wired: u32,
    pub speculative: u32,
    pub compressed: u32,
    pub purgeable: u32,
    pub external: u32,
}

/// Pages in use: active + inactive + wired + speculative + compressed − purgeable −
/// external, or zero if the subtraction would go below zero.
pub open spec fn used_pages(c: VmCounts) -> int {
    let plus = c.active + c.inactive + c.wired + c.speculative + c.compressed;
    let minus = c.purgeable + c.external;
    if plus >= minus {
        plus - minus
    } else {
        0
    }
}

/// RAM in use, in bytes: the pages in use times the page size (capped at `u64::MAX`).
pub fn ram_usage(c: VmCounts, page_size: u64) -> (r: u64)
    ensures
        r == (if used_pages(c) * page_size > u64::MAX { u64::MAX as int } else { used_pages(c) * page_size }),
{
    let plus: u64 = c.active as u64 + c.inactive as u64 + c.wired as u64 + c.speculative as u64
        + c.compressed as u64;
    let minus: u64 = c.purgeable as u64 + c.external as u64;
    let used: u64 = if plus >= minus {
        plus - minus
    } else {
        0
    };
    proof {
        assert((used as int) * (page_size as int) <= 0xffff_ffff_ffff_ffffu64 * 0xffff_ffff_ffff_ffffu64)
            by (nonlinear_arith)
            requires
                used <= 0xffff_ffff_ffff_ffffu64,
                page_size <= 0xffff_ffff_ffff_ffffu64,
        ;
    }
    let bytes: u128 = used as u128 * page_size as u128;
    if bytes > u64::MAX as u128 {
        u64::MAX
    } else {
        bytes as u64
    }
}

} // verus!
