//! Display preferences and the keys that change them.
use vstd::prelude::*;

verus! {

/// Number of colours the display cycles through.
pub const COLOR_COUNT: usize = 11;

/// Step by which the sampling interval changes, in milliseconds.
pub const INTERVAL_STEP: u32 = 250;

/// Longest sampling interval, in milliseconds.
pub const MAX_INTERVAL: u32 = 10_000;

/// Shortest sampling interval, in milliseconds.
pub const MIN_INTERVAL: u32 = 100;

/// How each reading is drawn.
#[derive(Clone, Copy, Debug, PartialEq, Eq, Structural)]
pub enum ViewType {
    Sparkline,
    Gauge,
}

/// Display preferences. `color` indexes the display's palette; a value of
/// `COLOR_COUNT` or more stands for a colour outside it.
#[derive(Clone, Copy, Debug, PartialEq, Eq, Structural)]
pub struct Config {
    pub view_type: ViewType,
    pub color: usize,
    pub interval: u32,
}

impl Default for Config {
    fn default() -> (r: Config)
        ensures
            r.view_type == ViewType::Sparkline,
            r.color == 0,
            r.interval == 1000,
    {
        Config { view_type: ViewType::Sparkline, color: 0, interval: 1000 }
    }
}

/// The interval after one step down: the old one less a step, rounded up to a whole
/// number of steps, and at least one step.
pub open spec fn dec_interval_spec(ms: u32) -> int {
    let less: int = if ms >= INTERVAL_STEP { ms - INTERVAL_STEP } else { 0 };
    let up = (less + INTERVAL_STEP - 1) / (INTERVAL_STEP as int) * INTERVAL_STEP;
    if up >= INTERVAL_STEP {
        up
    } else {
        INTERVAL_STEP as int
    }
}

/// The interval after one step up: the old one plus a step (saturating), rounded down
/// to a whole number of steps, and at most `MAX_INTERVAL`.
pub open spec fn inc_interval_spec(ms: u32) -> int {
    let more: int = if ms + INTERVAL_STEP > u32::MAX { u32::MAX as int } else { ms + INTERVAL_STEP };
    let down = more / (INTERVAL_STEP as int) * INTERVAL_STEP;
    if down <= MAX_INTERVAL {
        down
    } else {
        MAX_INTERVAL as int
    }
}

impl Config {
    /// Moves to the next palette colour; from a colour outside the palette, to the first.
    pub fn next_color(&mut self)
        ensures
            final(self).color == (if old(self).color < COLOR_COUNT {
                (old(self).color + 1) % (COLOR_COUNT as int)
            } else {
                0
            }),
            final(self).color < COLOR_COUNT,
            final(self).view_type == old(self).view_type,
            final(self).interval == old(self).interval,
    {
        self.color = if self.color < COLOR_COUNT {
            (self.color + 1) % COLOR_COUNT
        } else {
            0
        };
    }

    /// Switches between the two ways of drawing.
    pub fn next_view_type(&mut self)
        ensures
            final(self).view_type == (match old(self).view_type {
                ViewType::Sparkline => ViewType::Gauge,
                ViewType::Gauge => ViewType::Sparkline,
            }),
            final(self).color == old(self).color,
            final(self).interval == old(self).interval,
    {
        self.view_type = match self.view_type {
            ViewType::Sparkline => ViewType::Gauge,
            ViewType::Gauge => ViewType::Sparkline,
        };
    }

    /// Shortens the sampling interval by one step.
    pub fn dec_interval(&mut self)
        ensures
            final(self).interval == dec_interval_spec(old(self).interval),
            final(self).color == old(self).color,
            final(self).view_type == old(self).view_type,
    {
        let step = INTERVAL_STEP;
        let up = (self.interval.saturating_sub(step) + step - 1) / step * step;
        self.interval = if up >= step {
            up
        } else {
            step
        };
    }

    /// Lengthens the sampling interval by one step.
    pub fn inc_interval(&mut self)
        ensures
            final(self).interval == inc_interval_spec(old(self).interval),
            final(self).color == old(self).color,
            final(self).view_type == old(self).view_type,
    {
        let step = INTERVAL_STEP;
        let down = self.interval.saturating_add(step) / step * step;
        self.interval = if down <= MAX_INTERVAL {
            down
        } else {
            MAX_INTERVAL
        };
    }
}

/// Brings a requested sampling interval into `[MIN_INTERVAL, MAX_INTERVAL]`.
pub fn clamp_interval(ms: u32) -> (r: u32)
    ensures
        r == (if ms < MIN_INTERVAL { MIN_INTERVAL } else if ms > MAX_INTERVAL { MAX_INTERVAL } else { ms }),
{
    if ms < MIN_INTERVAL {
        MIN_INTERVAL
    } else if ms > MAX_INTERVAL {
        MAX_INTERVAL
    } else {
        ms
    }
}

/// What a key press asks of the display.
#[derive(Clone, Copy, Debug, PartialEq, Eq, Structural)]
pub enum Control {
    Quit,
    ChangeColor,
    ChangeView,
    IncInterval,
    DecInterval,
}

/// The request bound to a character key; `ctrl_only` is whether Control, and no
/// other modifier, was held.
pub fn control_for_key(c: char, ctrl_only: bool) -> (r: Option<Control>)
    ensures
        r == (if c == 'q' {
            Some(Control::Quit)
        } else if c == 'c' {
            Some(if ctrl_only { Control::Quit } else { Control::ChangeColor })
        } else if c == 'v' {
            Some(Control::ChangeView)
        } else if c == '+' || c == '=' {
            Some(Control::IncInterval)
        } else if c == '-' {
            Some(Control::DecInterval)
        } else {
            None::<Control>
        }),
{
    if c == 'q' {
        Some(Control::Quit)
    } else if c == 'c' {
        if ctrl_only {
            Some(Control::Quit)
        } else {
            Some(Control::ChangeColor)
        }
    } else if c == 'v' {
        Some(Control::ChangeView)
    } else if c == '+' || c == '=' {
        Some(Control::IncInterval)
    } else if c == '-' {
        Some(Control::DecInterval)
    } else {
        None
    }
}

} // verus!
