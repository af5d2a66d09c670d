//! Short histories of recent readings, as shown by an interactive display.
use vstd::prelude::*;
use crate::metrics::{MemMetrics, Metrics};

verus! {

/// Readings kept for a sparkline.
pub const MAX_SPARKLINE: usize = 128;

/// Temperature readings kept for the trend.
pub const MAX_TEMPS: usize = 8;

/// `v` put in front of `hist`, keeping at most `cap` entries.
pub open spec fn recent<T>(hist: Seq<T>, v: T, cap: nat) -> Seq<T> {
    let s = seq![v] + hist;
    if s.len() > cap {
        s.subrange(0, cap as int)
    } else {
        s
    }
}

fn push_front<T>(items: &mut Vec<T>, v: T, cap: usize)
    ensures
        final(items)@ == recent(old(items)@, v, cap as nat),
{
    items.insert(0, v);
    items.truncate(cap);
    proof {
        let s = seq![v] + old(items)@;
        assert(old(items)@.insert(0, v) =~= s);
    }
}

/// Two-point smoothing: the mean of the previous and the new value, or the new value
/// when there was no previous one (zero).
pub open spec fn avg2_spec(prev: u64, value: u64) -> u64 {
    if prev == 0 {
        value
    } else {
        ((prev + value) / 2) as u64
    }
}

/// Smooths a newly observed value against the previous smoothed one.
pub fn avg2(prev: u64, value: u64) -> (r: u64)
    ensures
        r == avg2_spec(prev, value),
{
    if prev == 0 {
        value
    } else {
        ((prev as u128 + value as u128) / 2) as u64
    }
}

/// From a cold start (no previous value) the first observed value is taken unchanged.
pub proof fn lemma_smoothing_cold_start(value: u64)
    ensures
        avg2_spec(0, value) == value,
{
}

/// Sum of a sequence of readings.
pub open spec fn seq_total(s: Seq<u64>) -> int
    decreases s.len(),
{
    if s.len() == 0 {
        0
    } else {
        seq_total(s.drop_last()) + s.last()
    }
}

/// Largest of a sequence of readings (zero when empty).
pub open spec fn seq_max(s: Seq<u64>) -> u64
    decreases s.len(),
{
    if s.len() == 0 {
        0
    } else {
        let m = seq_max(s.drop_last());
        if s.last() > m {
            s.last()
        } else {
            m
        }
    }
}

fn total_and_max(s: &Vec<u64>) -> (r: (u128, u64))
    ensures
        r.0 == seq_total(s@),
        r.1 == seq_max(s@),
        r.0 <= s@.len() * 0xffff_ffff_ffff_ffffu64,
{
    let n = s.len();
    let mut sum: u128 = 0;
    let mut max: u64 = 0;
    let mut i: usize = 0;
    while i < n
        invariant
            n == s@.len(),
            i <= n,
            sum == seq_total(s@.subrange(0, i as int)),
            max == seq_max(s@.subrange(0, i as int)),
            sum <= i * 0xffff_ffff_ffff_ffffu64,
        decreases n - i,
    {
        proof {
            assert(s@.subrange(0, i + 1).drop_last() =~= s@.subrange(0, i as int));
            assert(i * 0xffff_ffff_ffff_ffffu64 + 0xffff_ffff_ffff_ffffu64 <= 0xffff_ffff_ffff_ffffu64
                * 0x1_0000_0000_0000_0000) by (nonlinear_arith)
                requires
                    i < 0xffff_ffff_ffff_ffffu64,
            ;
        }
        let v = s[i];
        sum = sum + v as u128;
        if v > max {
            max = v;
        }
        i = i + 1;
    }
    assert(s@.subrange(0, n as int) =~= s@);
    (sum, max)
}

/// Frequency history of one domain.
#[derive(Debug)]
pub struct FreqStore {
    /// Recent shares of the highest frequency, in percent, newest first.
    pub items: Vec<u64>,
    /// Latest frequency, MHz.
    pub top_value: u64,
    /// Latest share of the highest frequency, ppm.
    pub usage: u64,
}

impl FreqStore {
    pub fn new() -> (r: FreqStore)
        ensures
            r.items@.len() == 0,
            r.top_value == 0,
            r.usage == 0,
    {
        FreqStore { items: Vec::new(), top_value: 0, usage: 0 }
    }

    /// Records a frequency (MHz) and its share of the highest frequency (ppm).
    pub fn push(&mut self, value: u64, usage: u64)
        ensures
            final(self).items@ == recent(old(self).items@, usage / 10_000, MAX_SPARKLINE as nat),
            final(self).top_value == value,
            final(self).usage == usage,
    {
        push_front(&mut self.items, usage / 10_000, MAX_SPARKLINE);
        self.top_value = value;
        self.usage = usage;
    }
}

/// Power history of one rail, in microwatts.
#[derive(Debug)]
pub struct PowerStore {
    /// Recent readings, newest first.
    pub items: Vec<u64>,
    /// Smoothed latest reading.
    pub top_value: u64,
    /// Largest recent reading.
    pub max_value: u64,
    /// Mean of the recent readings, rounded down.
    pub avg_value: u64,
}

impl PowerStore {
    pub fn new() -> (r: PowerStore)
        ensures
            r.items@.len() == 0,
            r.top_value == 0,
            r.max_value == 0,
            r.avg_value == 0,
    {
        PowerStore { items: Vec::new(), top_value: 0, max_value: 0, avg_value: 0 }
    }

    /// Records a reading: it joins the history, the displayed value is smoothed
    /// against the previous displayed value, and the mean and maximum are renewed.
    pub fn push(&mut self, value: u64)
        ensures
            final(self).items@ == recent(old(self).items@, value, MAX_SPARKLINE as nat),
            final(self).top_value == avg2_spec(old(self).top_value, value),
            final(self).avg_value == seq_total(final(self).items@) / (final(self).items@.len() as int),
            final(self).max_value == seq_max(final(self).items@),
    {
        push_front(&mut self.items, value, MAX_SPARKLINE);
        self.top_value = avg2(self.top_value, value);
        let (sum, max) = total_and_max(&self.items);
        let n = self.items.len();
        proof {
            assert((sum as int) / (n as int) <= 0xffff_ffff_ffff_ffff) by (nonlinear_arith)
                requires
                    sum <= n * 0xffff_ffff_ffff_ffffu64,
                    n > 0,
            ;
        }
        self.avg_value = (sum / n as u128) as u64;
        self.max_value = max;
    }
}

/// Memory history.
#[derive(Debug)]
pub struct MemoryStore {
    /// Recent RAM usage readings, newest first.
    pub items: Vec<u64>,
    pub ram_usage: u64,
    pub ram_total: u64,
    pub swap_usage: u64,
    pub swap_total: u64,
    /// Largest recent RAM usage.
    pub max_ram: u64,
}

impl MemoryStore {
    pub fn new() -> (r: MemoryStore)
        ensures
            r.items@.len() == 0,
            r.max_ram == 0,
    {
        MemoryStore {
            items: Vec::new(),
            ram_usage: 0,
            ram_total: 0,
            swap_usage: 0,
            swap_total: 0,
            max_ram: 0,
        }
    }

    /// Records a memory reading.
    pub fn push(&mut self, value: MemMetrics)
        ensures
            final(self).items@ == recent(old(self).items@, value.ram_usage, MAX_SPARKLINE as nat),
            final(self).ram_usage == value.ram_usage,
            final(self).ram_total == value.ram_total,
            final(self).swap_usage == value.swap_usage,
            final(self).swap_total == value.swap_total,
            final(self).max_ram == seq_max(final(self).items@),
    {
        push_front(&mut self.items, value.ram_usage, MAX_SPARKLINE);
        self.ram_usage = value.ram_usage;
        self.ram_total = value.ram_total;
        self.swap_usage = value.swap_usage;
        self.swap_total = value.swap_total;
        let (_sum, max) = total_and_max(&self.items);
        self.max_ram = max;
    }
}

/// Exponential smoothing with weight 4/5 on the newer reading, over the readings
/// from position `j` to the oldest (readings are newest first), rounded down at each step.
pub open spec fn ema_from(s: Seq<u32>, j: int) -> int
    decreases s.len() - j,
{
    if j >= s.len() - 1 {
        s[s.len() - 1] as int
    } else {
        (4 * s[j] + ema_from(s, j + 1)) / 5
    }
}

/// The trend of a temperature history: zero with fewer than two readings, else the
/// smoothed value over all of them.
pub open spec fn trend_spec(s: Seq<u32>) -> int {
    if s.len() < 2 {
        0
    } else {
        ema_from(s, 0)
    }
}

proof fn lemma_ema_bounded(s: Seq<u32>, j: int, lo: int, hi: int)
    requires
        0 <= j < s.len(),
        forall|i: int| 0 <= i < s.len() ==> lo <= #[trigger] s[i] <= hi,
    ensures
        lo <= ema_from(s, j) <= hi,
    decreases s.len() - j,
{
    if j < s.len() - 1 {
        lemma_ema_bounded(s, j + 1, lo, hi);
        let e = ema_from(s, j + 1);
        let x = s[j] as int;
        assert(lo <= (4 * x + e) / 5 <= hi) by (nonlinear_arith)
            requires
                lo <= x <= hi,
                lo <= e <= hi,
        ;
    }
}

/// The trend of a history of two or more readings lies between their least and
/// their greatest; with fewer it is zero.
pub proof fn lemma_trend_bounded(s: Seq<u32>, lo: int, hi: int)
    requires
        forall|i: int| 0 <= i < s.len() ==> lo <= #[trigger] s[i] <= hi,
    ensures
        s.len() < 2 ==> trend_spec(s) == 0,
        s.len() >= 2 ==> lo <= trend_spec(s) <= hi,
{
    if s.len() >= 2 {
        lemma_ema_bounded(s, 0, lo, hi);
    }
}

/// Temperature history of one sensor group, in thousandths of a degree.
#[derive(Debug)]
pub struct TempStore {
    /// Recent readings, newest first; never zero.
    pub items: Vec<u32>,
}

impl TempStore {
    pub fn new() -> (r: TempStore)
        ensures
            r.items@.len() == 0,
    {
        TempStore { items: Vec::new() }
    }

    /// The newest reading, or zero.
    pub fn last(&self) -> (r: u32)
        ensures
            r == (if self.items@.len() == 0 { 0 } else { self.items@[0] }),
    {
        if self.items.len() == 0 {
            0
        } else {
            self.items[0]
        }
    }

    /// The trend of the history (see `trend_spec`).
    pub fn trend_ema(&self) -> (r: u32)
        ensures
            r == trend_spec(self.items@),
    {
        let n = self.items.len();
        if n < 2 {
            return 0;
        }
        let ghost s = self.items@;
        let mut ema: u32 = self.items[n - 1];
        let mut j: usize = n - 1;
        while j > 0
            invariant
                s == self.items@,
                n == s.len(),
                n >= 2,
                0 <= j <= n - 1,
                ema == ema_from(s, j as int),
            decreases j,
        {
            j = j - 1;
            let x = self.items[j];
            proof {
                assert((4 * x + ema) / 5 <= 0xffff_ffff) by (nonlinear_arith)
                    requires
                        x <= 0xffff_ffffu32,
                        ema <= 0xffff_ffffu32,
                ;
            }
            ema = ((4 * x as u64 + ema as u64) / 5) as u32;
        }
        ema
    }

    /// Records a reading. A zero reading is replaced by the trend; if that is zero too,
    /// nothing is recorded.
    pub fn push(&mut self, value: u32)
        ensures
            ({
                let v = if value == 0 { trend_spec(old(self).items@) } else { value as int };
                &&& v == 0 ==> final(self).items@ == old(self).items@
                &&& v != 0 ==> final(self).items@ == recent(old(self).items@, v as u32, MAX_TEMPS as nat)
            }),
    {
        let v = if value == 0 {
            self.trend_ema()
        } else {
            value
        };
        if v == 0 {
            return;
        }
        push_front(&mut self.items, v, MAX_TEMPS);
    }
}

/// The histories behind an interactive display.
#[derive(Debug)]
pub struct Dashboard {
    pub mem: MemoryStore,
    pub cpu_power: PowerStore,
    pub gpu_power: PowerStore,
    pub ane_power: PowerStore,
    pub all_power: PowerStore,
    pub sys_power: PowerStore,
    pub cpu_temp: TempStore,
    pub gpu_temp: TempStore,
    pub ecpu_freq: FreqStore,
    pub pcpu_freq: FreqStore,
    pub igpu_freq: FreqStore,
}

impl Dashboard {
    pub fn new() -> (r: Dashboard)
        ensures
            r.cpu_power.top_value == 0,
            r.cpu_temp.items@.len() == 0,
    {
        Dashboard {
            mem: MemoryStore::new(),
            cpu_power: PowerStore::new(),
            gpu_power: PowerStore::new(),
            ane_power: PowerStore::new(),
            all_power: PowerStore::new(),
            sys_power: PowerStore::new(),
            cpu_temp: TempStore::new(),
            gpu_temp: TempStore::new(),
            ecpu_freq: FreqStore::new(),
            pcpu_freq: FreqStore::new(),
            igpu_freq: FreqStore::new(),
        }
    }

    /// Adds one cycle's record to every history.
    pub fn update_metrics(&mut self, data: Metrics)
        ensures
            final(self).cpu_power.items@ == recent(old(self).cpu_power.items@, data.cpu_power, MAX_SPARKLINE as nat),
            final(self).cpu_power.top_value == avg2_spec(old(self).cpu_power.top_value, data.cpu_power),
            final(self).gpu_power.top_value == avg2_spec(old(self).gpu_power.top_value, data.gpu_power),
            final(self).ane_power.top_value == avg2_spec(old(self).ane_power.top_value, data.ane_power),
            final(self).all_power.top_value == avg2_spec(old(self).all_power.top_value, data.all_power),
            final(self).sys_power.top_value == avg2_spec(old(self).sys_power.top_value, data.sys_power),
            final(self).ecpu_freq.top_value == data.ecpu_usage.0,
            final(self).ecpu_freq.usage == data.ecpu_usage.1,
            final(self).pcpu_freq.top_value == data.pcpu_usage.0,
            final(self).pcpu_freq.usage == data.pcpu_usage.1,
            final(self).igpu_freq.top_value == data.gpu_usage.0,
            final(self).igpu_freq.usage == data.gpu_usage.1,
            final(self).mem.ram_usage == data.memory.ram_usage,
            final(self).mem.items@ == recent(old(self).mem.items@, data.memory.ram_usage, MAX_SPARKLINE as nat),
            data.temp.cpu_temp_avg != 0 ==> final(self).cpu_temp.items@ == recent(
                old(self).cpu_temp.items@,
                data.temp.cpu_temp_avg,
                MAX_TEMPS as nat,
            ),
            data.temp.gpu_temp_avg != 0 ==> final(self).gpu_temp.items@ == recent(
                old(self).gpu_temp.items@,
                data.temp.gpu_temp_avg,
                MAX_TEMPS as nat,
            ),
    {
        self.cpu_power.push(data.cpu_power);
        self.gpu_power.push(data.gpu_power);
        self.ane_power.push(data.ane_power);
        self.all_power.push(data.all_power);
        self.sys_power.push(data.sys_power);
        self.ecpu_freq.push(data.ecpu_usage.0 as u64, data.ecpu_usage.1);
        self.pcpu_freq.push(data.pcpu_usage.0 as u64, data.pcpu_usage.1);
        self.igpu_freq.push(data.gpu_usage.0 as u64, data.gpu_usage.1);
        self.cpu_temp.push(data.temp.cpu_temp_avg);
        self.gpu_temp.push(data.temp.gpu_temp_avg);
        self.mem.push(data.memory);
    }
}

} // verus!
