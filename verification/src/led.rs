//! The LED state of the standalone firmware: colours, intensity and power of
//! the boost converter.
use vstd::prelude::*;

use crate::ef_led::{LEDData, Rgb, LED_COUNT};
use crate::led_data::{scaled_all, uniform};

verus! {

/// The highest intensity that the boost converter can power on all LEDs.
pub const MAX_SAFE_INTENSITY: u8 = 50;

#[derive(Debug, Clone, Copy, PartialEq, Eq, Structural)]
pub enum EFLedError {
    /// Too bright for safe use (the converter is not designed to run all the
    /// LEDs at full power).
    IntensityTooHigh,
}

impl EFLedError {
    /// The message of the error.
    pub fn message(&self) -> (res: &'static str)
        ensures
            res@ == "Intensity of the led is too bright for the circuits"@,
    {
        match self {
            EFLedError::IntensityTooHigh => "Intensity of the led is too bright for the circuits",
        }
    }
}

/// Colours, intensity and power of the LEDs.
pub struct EFLed {
    leds: LEDData,
    intensity: u8,
    powered: bool,
}

impl EFLed {
    /// The LEDs are never driven above what the boost converter can power.
    #[verifier::type_invariant]
    closed spec fn safe(self) -> bool {
        self.intensity <= MAX_SAFE_INTENSITY
    }

    pub closed spec fn leds(&self) -> Seq<Rgb> {
        self.leds@
    }

    pub closed spec fn intensity(&self) -> u8 {
        self.intensity
    }

    pub closed spec fn powered(&self) -> bool {
        self.powered
    }

    /// All LEDs off, at intensity 10, converter off.
    pub fn new() -> (res: Self)
        ensures
            res.leds() == uniform((0u8, 0u8, 0u8)),
            res.intensity() == 10,
            res.intensity() <= MAX_SAFE_INTENSITY,
            !res.powered(),
    {
        let res = EFLed { intensity: 10, powered: false, leds: [(0, 0, 0); LED_COUNT] };
        assert(res.leds() =~= uniform((0u8, 0u8, 0u8)));
        res
    }

    /// Records that the boost converter is on.
    pub fn turn_on(&mut self)
        ensures
            final(self).intensity() <= MAX_SAFE_INTENSITY,
            final(self).powered(),
            final(self).leds() == old(self).leds(),
            final(self).intensity() == old(self).intensity(),
    {
        proof {
            use_type_invariant(&*self);
        }
        self.powered = true;
    }

    /// Records that the boost converter is off.
    pub fn turn_off(&mut self)
        ensures
            final(self).intensity() <= MAX_SAFE_INTENSITY,
            !final(self).powered(),
            final(self).leds() == old(self).leds(),
            final(self).intensity() == old(self).intensity(),
    {
        proof {
            use_type_invariant(&*self);
        }
        self.powered = false;
    }

    /// Sets the intensity; one above `MAX_SAFE_INTENSITY` is refused and
    /// changes nothing.
    pub fn set_intensity(&mut self, intensity: u8) -> (res: Result<(), EFLedError>)
        ensures
            final(self).intensity() <= MAX_SAFE_INTENSITY,
            intensity > MAX_SAFE_INTENSITY ==> res == Err::<(), EFLedError>(EFLedError::IntensityTooHigh)
                && final(self).intensity() == old(self).intensity(),
            intensity <= MAX_SAFE_INTENSITY ==> res is Ok && final(self).intensity() == intensity,
            final(self).leds() == old(self).leds(),
            final(self).powered() == old(self).powered(),
    {
        proof {
            use_type_invariant(&*self);
        }
        if intensity > MAX_SAFE_INTENSITY {
            return Err(EFLedError::IntensityTooHigh);
        }
        self.intensity = intensity;
        Ok(())
    }

    /// Sets every LED to `col`.
    pub fn fill(&mut self, col: Rgb)
        ensures
            final(self).intensity() <= MAX_SAFE_INTENSITY,
            final(self).leds() == uniform(col),
            final(self).intensity() == old(self).intensity(),
            final(self).powered() == old(self).powered(),
    {
        proof {
            use_type_invariant(&*self);
        }
        self.leds = [col; LED_COUNT];
        assert(self.leds() =~= uniform(col));
    }

    /// The colours to write to the LEDs: the colours set, scaled to the
    /// intensity.
    pub fn transformed(&self) -> (frame: LEDData)
        ensures
            frame@ == scaled_all(self.leds(), self.intensity()),
            self.intensity() <= MAX_SAFE_INTENSITY,
            forall|k: int|
                0 <= k < LED_COUNT ==> #[trigger] frame@[k].0 <= MAX_SAFE_INTENSITY && frame@[k].1
                    <= MAX_SAFE_INTENSITY && frame@[k].2 <= MAX_SAFE_INTENSITY,
    {
        proof {
            use_type_invariant(self);
        }
        let frame = apply_intensity(&self.intensity, &self.leds);
        proof {
            assert forall|k: int| 0 <= k < LED_COUNT implies #[trigger] frame@[k].0 <= MAX_SAFE_INTENSITY
                && frame@[k].1 <= MAX_SAFE_INTENSITY && frame@[k].2 <= MAX_SAFE_INTENSITY by {
                let c = self.leds()[k];
                assert(frame@[k] == crate::led_data::scaled_color(c, self.intensity()));
                crate::led_data::lemma_scaled_bounds(c.0, self.intensity());
                crate::led_data::lemma_scaled_bounds(c.1, self.intensity());
                crate::led_data::lemma_scaled_bounds(c.2, self.intensity());
            }
        }
        frame
    }
}

/// Scales every colour component of `input`: `c * intensity / 255`.
pub fn apply_intensity<const COUNT: usize>(intensity: &u8, input: &[Rgb; COUNT]) -> (out: [Rgb; COUNT])
    ensures
        out@ == scaled_all(input@, *intensity),
{
    let mut out = *input;
    let i16 = *intensity as u16;
    for k in 0..COUNT
        invariant
            input@.len() == COUNT,
            out@.len() == COUNT,
            i16 == *intensity,
            forall|j: int| 0 <= j < k ==> out@[j] == crate::led_data::scaled_color(input@[j], *intensity),
    {
        let c = input[k];
        proof {
            crate::led_data::lemma_scaled_bounds(c.0, *intensity);
            crate::led_data::lemma_scaled_bounds(c.1, *intensity);
            crate::led_data::lemma_scaled_bounds(c.2, *intensity);
            assert(c.0 * i16 <= 65025 && c.1 * i16 <= 65025 && c.2 * i16 <= 65025) by (nonlinear_arith)
                requires
                    c.0 <= 255,
                    c.1 <= 255,
                    c.2 <= 255,
                    i16 <= 255,
            ;
        }
        out[k] = (
            (c.0 as u16 * i16 / 255) as u8,
            (c.1 as u16 * i16 / 255) as u8,
            (c.2 as u16 * i16 / 255) as u8,
        );
    }
    assert(out@ =~= scaled_all(input@, *intensity));
    out
}

} // verus!
