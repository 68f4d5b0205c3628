//! The breathing animation: the eye of the badge slowly glows and dims.
use vstd::prelude::*;

use crate::animation::colors::{BLACK, EMERY_TEAL};
use crate::ef_led::{Rgb, LED_COUNT};
use crate::led_data::{apply_intensity_color, scaled_color, LedData};

verus! {

/// The LED of the eye.
pub const EYE_POSITION: usize = 2;

/// Ticks in one period of the breathing animation.
pub const BREATHING_PERIOD: u16 = 320;

/// Middle of the period, where the eye is brightest.
pub const BREATHING_MID: u16 = BREATHING_PERIOD / 2;

/// The distance of `tick` from the nearest end of the period.
pub open spec fn breathing_step(tick: u16) -> int {
    if tick < 160 {
        tick as int
    } else {
        320 - tick
    }
}

/// The intensity at `tick`: the square of the step over 100, at most 255.
pub open spec fn breathing_intensity(tick: u16) -> u8 {
    let sq = breathing_step(tick) * breathing_step(tick) / 100;
    (if sq < 255 {
        sq
    } else {
        255
    }) as u8
}

/// The colours of the breathing animation at `tick`: all off but the eye,
/// whose colour is scaled twice by the intensity.
pub open spec fn breathing_frame(tick: u16) -> Seq<Rgb> {
    Seq::new(
        LED_COUNT as nat,
        |k: int|
            if k == EYE_POSITION {
                scaled_color(
                    scaled_color(EMERY_TEAL, breathing_intensity(tick)),
                    breathing_intensity(tick),
                )
            } else {
                BLACK
            },
    )
}

/// The eye breathes symmetrically around the middle of the period, is off at
/// both ends and brightest in the middle.
pub proof fn lemma_breathing_pulse(tick: u16)
    requires
        tick <= BREATHING_PERIOD,
    ensures
        breathing_frame(tick) == breathing_frame((BREATHING_PERIOD - tick) as u16),
        breathing_intensity(0) == 0,
        breathing_intensity(BREATHING_PERIOD) == 0,
        breathing_intensity(BREATHING_MID) == 255,
        breathing_intensity(tick) <= breathing_intensity(BREATHING_MID),
{
    assert(breathing_step((BREATHING_PERIOD - tick) as u16) == breathing_step(tick));
    assert(0int * 0int / 100 == 0) by (nonlinear_arith);
    assert(160int * 160int / 100 == 256) by (nonlinear_arith);
    assert(breathing_frame(tick) =~= breathing_frame((BREATHING_PERIOD - tick) as u16));
}

/// Only the eye ever lights up: in every frame every other LED is off, and
/// the eye shows Emery's teal scaled twice by the frame's intensity, which
/// never decreases over the first half of the period.
pub proof fn lemma_breathing_only_eye(tick: u16)
    requires
        tick <= BREATHING_PERIOD,
    ensures
        breathing_frame(tick).len() == LED_COUNT,
        forall|k: int| 0 <= k < LED_COUNT && k != EYE_POSITION ==> #[trigger] breathing_frame(tick)[k] == (0u8, 0u8, 0u8),
        breathing_frame(tick)[EYE_POSITION as int] == scaled_color(
            scaled_color((0u8, 128u8, 128u8), breathing_intensity(tick)),
            breathing_intensity(tick),
        ),
        tick < BREATHING_MID ==> breathing_intensity(tick) <= breathing_intensity((tick + 1) as u16),
        tick <= 160 ==> breathing_intensity(tick) == (if tick * tick / 100 <= 255 {
            tick * tick / 100
        } else {
            255
        }),
        tick >= 160 ==> breathing_intensity(tick) == (if (320 - tick) * (320 - tick) / 100 <= 255 {
            (320 - tick) * (320 - tick) / 100
        } else {
            255
        }),
{
    if tick < BREATHING_MID {
        let t = tick as int;
        assert(t * t / 100 <= (t + 1) * (t + 1) / 100) by (nonlinear_arith)
            requires
                0 <= t,
        ;
    }
}

/// The frame of the breathing animation at `tick`, and whether the animation
/// has reached the end of its period. Every setting shows Emery's teal.
pub fn breathing(settings: u16, tick: u16) -> (res: (LedData, bool))
    requires
        tick <= BREATHING_PERIOD,
    ensures
        res.0@ == breathing_frame(tick),
        res.1 == (tick >= BREATHING_PERIOD),
        res.0@.len() == LED_COUNT,
        forall|k: int| 0 <= k < LED_COUNT && k != EYE_POSITION ==> #[trigger] res.0@[k] == BLACK,
{
    let selected_color = settings as u8;

    let color = match selected_color {
        0 => EMERY_TEAL,
        _ => EMERY_TEAL,
    };

    // From 0 to 160
    let step = if tick < BREATHING_MID { tick } else { BREATHING_PERIOD - tick };

    assert(step * step <= 25600) by (nonlinear_arith)
        requires
            step <= 160,
    ;
    let intensity = ((step * step) / 100).min(255);
    assert(intensity == breathing_intensity(tick));

    let mut data = LedData::default();
    data.set_individual(EYE_POSITION, apply_intensity_color(color, intensity as u8));

    data.apply_intensity(intensity as u8);

    proof {
        let i = intensity as u8;
        crate::led_data::lemma_scaled_bounds(0, i);
        assert(data@ =~= breathing_frame(tick));
    }
    (data, tick >= BREATHING_PERIOD)
}

} // verus!
