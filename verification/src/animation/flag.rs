//! The flag animation: a pride flag that slowly pulses.
use vstd::prelude::*;

use crate::animation::colors::{BLACK, LIGHT_BLUE, PINK, RED, WHITE};
use crate::ef_led::LedDataArr;
use crate::led_data::{scaled_all, LedData};

verus! {

/// Ticks in one period of the flag animation.
pub const FLAG_PERIOD: u16 = 300;

/// The transgender pride flag.
pub const TRANS: LedDataArr = [
    BLACK, BLACK, BLACK, BLACK, BLACK, BLACK, LIGHT_BLUE, LIGHT_BLUE, PINK, PINK, WHITE, WHITE,
    WHITE, PINK, PINK, LIGHT_BLUE, LIGHT_BLUE,
];

/// The French flag.
pub const FRENCH: LedDataArr = [
    BLACK, BLACK, BLACK, BLACK, BLACK, BLACK, RED, RED, RED, PINK, WHITE, WHITE, WHITE, PINK, PINK,
    LIGHT_BLUE, LIGHT_BLUE,
];

/// The intensity of the flag at `tick`: rises from 105 to 255 over the first
/// half of the period, then falls back to 105.
pub open spec fn flag_intensity(tick: u16) -> u8 {
    ((if tick < 150 {
        tick as int
    } else {
        300 - tick
    }) + 105) as u8
}

/// The colours of the flag animation at `tick`.
pub open spec fn flag_frame(tick: u16) -> Seq<crate::ef_led::Rgb> {
    scaled_all(TRANS@, flag_intensity(tick))
}

/// The flag pulses symmetrically around the middle of its period, and never
/// gets darker than intensity 105.
pub proof fn lemma_flag_pulse(tick: u16)
    requires
        tick <= FLAG_PERIOD,
    ensures
        flag_frame(tick) == flag_frame((FLAG_PERIOD - tick) as u16),
        105 <= flag_intensity(tick) <= 255,
        flag_intensity(150) == 255,
{
}

/// The flag starts at intensity 105, brightens by exactly one per tick up to
/// 255 at tick 150, then dims by exactly one per tick back to 105 at tick 300;
/// every frame is the transgender flag at that intensity.
pub proof fn lemma_flag_intensity_steps(tick: u16)
    requires
        tick <= FLAG_PERIOD,
    ensures
        flag_intensity(0) == 105,
        flag_intensity(150) == 255,
        flag_intensity(FLAG_PERIOD) == 105,
        tick < 150 ==> flag_intensity((tick + 1) as u16) == flag_intensity(tick) + 1,
        150 <= tick < FLAG_PERIOD ==> flag_intensity((tick + 1) as u16) + 1 == flag_intensity(tick),
        tick < 150 ==> flag_intensity(tick) == tick + 105,
        tick >= 150 ==> flag_intensity(tick) == 405 - tick,
        flag_frame(tick).len() == crate::ef_led::LED_COUNT,
        forall|k: int|
            0 <= k < crate::ef_led::LED_COUNT ==> #[trigger] flag_frame(tick)[k]
                == crate::led_data::scaled_color(TRANS@[k], flag_intensity(tick)),
{
}

/// The frame of the flag animation at `tick`, and whether the animation has
/// reached the end of its period. Every setting shows the transgender flag.
pub fn flag(settings: u16, tick: u16) -> (res: (LedData, bool))
    requires
        tick <= FLAG_PERIOD,
    ensures
        res.0@ == flag_frame(tick),
        res.1 == (tick >= FLAG_PERIOD),
        tick < 150 ==> res.0@ == scaled_all(TRANS@, (tick + 105) as u8),
        tick >= 150 ==> res.0@ == scaled_all(TRANS@, (405 - tick) as u8),
{
    let selected_flag = settings as u8;

    let intensity = if tick < 150 { tick } else { 300 - tick } + 105;

    let flag = match selected_flag {
        _ => TRANS,
    };

    let mut data = LedData::new(flag);

    data.apply_intensity(intensity as u8);

    (data, tick >= 300)
}

} // verus!
