//! LED animations and the animator that plays them tick after tick.
use vstd::prelude::*;

pub mod breathing;
pub mod colors;
pub mod flag;

use crate::animation::flag::{flag, flag_frame, FLAG_PERIOD};
use crate::ef_led::LedDataArr;
use crate::led_data::{scaled_all, LedData};

verus! {

/// The animations the LEDs can play.
#[derive(Clone, Copy, PartialEq, Eq, Structural, Debug)]
pub enum Pattern {
    Flag,
}

/// The pattern that a pattern number selects: every number selects the flag.
pub open spec fn pattern_of(value: u8) -> Pattern {
    Pattern::Flag
}

/// The number of a pattern.
pub open spec fn pattern_number(pattern: Pattern) -> u8 {
    match pattern {
        Pattern::Flag => 1u8,
    }
}

impl From<u8> for Pattern {
    fn from(value: u8) -> (res: Self) {
        match value {
            1 => Self::Flag,
            _ => Self::Flag,
        }
    }
}

impl vstd::std_specs::convert::FromSpecImpl<u8> for Pattern {
    open spec fn obeys_from_spec() -> bool {
        true
    }

    open spec fn from_spec(value: u8) -> Self {
        pattern_of(value)
    }
}

impl From<Pattern> for u8 {
    fn from(pattern: Pattern) -> (res: Self) {
        match pattern {
            Pattern::Flag => 1,
        }
    }
}

impl vstd::std_specs::convert::FromSpecImpl<Pattern> for u8 {
    open spec fn obeys_from_spec() -> bool {
        true
    }

    open spec fn from_spec(pattern: Pattern) -> Self {
        pattern_number(pattern)
    }
}

/// The last tick of a pattern's period.
pub open spec fn period(pattern: Pattern) -> u16 {
    match pattern {
        Pattern::Flag => FLAG_PERIOD,
    }
}

/// The colours of `pattern` at `tick`.
pub open spec fn pattern_frame(pattern: Pattern, tick: u16) -> Seq<crate::ef_led::Rgb> {
    match pattern {
        Pattern::Flag => flag_frame(tick),
    }
}

impl Pattern {
    /// The frame of the pattern at `tick`, and whether the tick must be reset.
    pub fn run(&self, settings: u16, tick: u16) -> (res: (LedData, bool))
        requires
            tick <= period(*self),
        ensures
            res.0@ == pattern_frame(*self, tick),
            res.1 == (tick >= period(*self)),
    {
        match self {
            Self::Flag => flag(settings, tick),
        }
    }
}

/// The tick that follows `tick` in a pattern: back to 0 after the end of the
/// period.
pub open spec fn next_tick(pattern: Pattern, tick: u16) -> u16 {
    if tick >= period(pattern) {
        0
    } else {
        (tick + 1) as u16
    }
}

/// Plays the selected pattern, one frame per tick.
pub struct Animator {
    current_tick: u16,
    previous_pattern: Pattern,
}

impl Animator {
    #[verifier::type_invariant]
    closed spec fn inv(self) -> bool {
        self.current_tick <= period(self.previous_pattern)
    }

    /// The tick of the next frame.
    pub closed spec fn tick_count(&self) -> u16 {
        self.current_tick
    }

    /// The pattern being played.
    pub closed spec fn pattern(&self) -> Pattern {
        self.previous_pattern
    }

    pub fn new() -> (res: Self)
        ensures
            res.tick_count() == 0,
            res.pattern() == Pattern::Flag,
    {
        Self { current_tick: 0, previous_pattern: Pattern::Flag }
    }

    /// Plays one tick: switching to another pattern starts it from its first
    /// tick. Returns the frame, scaled to `intensity` out of 255.
    pub fn tick(&mut self, intensity: u8, pattern: u8, pattern_settings: u16) -> (frame: LedDataArr)
        ensures
            ({
                let p = pattern_of(pattern);
                let t = if old(self).pattern() != p {
                    0
                } else {
                    old(self).tick_count()
                };
                &&& frame@ == scaled_all(pattern_frame(p, t), intensity)
                &&& final(self).pattern() == p
                &&& final(self).tick_count() == next_tick(p, t)
                &&& final(self).tick_count() <= period(p)
            }),
    {
        proof {
            use_type_invariant(&*self);
        }
        let new_pattern: Pattern = pattern.into();
        if self.previous_pattern != new_pattern {
            self.current_tick = 0;
            self.previous_pattern = new_pattern;
        }
        let (data, reset_tick) = self.previous_pattern.run(pattern_settings, self.current_tick);

        let mut data = data;
        data.apply_intensity(intensity);

        if reset_tick {
            self.current_tick = 0
        } else {
            self.current_tick = self.current_tick.wrapping_add(1);
        }
        data.into_iter()
    }
}

/// The tick reached after `n` ticks of `pattern` from `tick`.
pub open spec fn ticks_after(pattern: Pattern, tick: u16, n: nat) -> u16
    decreases n,
{
    if n == 0 {
        tick
    } else {
        next_tick(pattern, ticks_after(pattern, tick, (n - 1) as nat))
    }
}

proof fn lemma_ticks_after_count(pattern: Pattern, tick: u16, n: nat)
    requires
        tick + n <= period(pattern),
    ensures
        ticks_after(pattern, tick, n) == tick + n,
    decreases n,
{
    if n > 0 {
        lemma_ticks_after_count(pattern, tick, (n - 1) as nat);
    }
}

proof fn lemma_ticks_after_split(pattern: Pattern, tick: u16, a: nat, b: nat)
    ensures
        ticks_after(pattern, tick, a + b) == ticks_after(pattern, ticks_after(pattern, tick, a), b),
    decreases b,
{
    if b > 0 {
        lemma_ticks_after_split(pattern, tick, a, (b - 1) as nat);
        assert((a + b - 1) as nat == a + (b - 1) as nat);
    }
}

/// A pattern repeats: after one whole period plus one tick, played without
/// switching pattern, the animator is back at the tick it started from.
pub proof fn lemma_pattern_cycle(pattern: Pattern, tick: u16)
    requires
        tick <= period(pattern),
    ensures
        ticks_after(pattern, tick, (period(pattern) + 1) as nat) == tick,
{
    let p = period(pattern) as nat;
    let to_end = (p - tick) as nat;
    lemma_ticks_after_count(pattern, tick, to_end);
    lemma_ticks_after_split(pattern, tick, to_end, 1);
    assert(ticks_after(pattern, tick, to_end + 1) == 0) by {
        reveal_with_fuel(ticks_after, 2);
    }
    lemma_ticks_after_count(pattern, 0, tick as nat);
    lemma_ticks_after_split(pattern, tick, to_end + 1, tick as nat);
    assert(to_end + 1 + tick == p + 1);
}

} // verus!
