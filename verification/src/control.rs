//! The LED controller of the coprocessor test program: the colours to show
//! and the intensity to show them at.
use vstd::prelude::*;

use crate::ef_led::{LEDData, Rgb, LED_COUNT};
use crate::led_data::{scaled, scaled_all, uniform};

verus! {

/// Colours and intensity of the LEDs. The owner shows `apply()` on the LEDs
/// after every change.
pub struct Control {
    current_data: LEDData,
    intensity: u8,
}

impl Control {
    /// The colours set, before scaling.
    pub closed spec fn data(&self) -> Seq<Rgb> {
        self.current_data@
    }

    /// The intensity, out of 255.
    pub closed spec fn intensity(&self) -> u8 {
        self.intensity
    }

    /// All LEDs off, at intensity 30.
    pub fn new() -> (res: Self)
        ensures
            res.data() == uniform((0u8, 0u8, 0u8)),
            res.intensity() == 30,
    {
        let res = Self { current_data: [(0, 0, 0); LED_COUNT], intensity: 30 };
        assert(res.data() =~= uniform((0u8, 0u8, 0u8)));
        res
    }

    /// The colours to send to the LEDs: the colours set, scaled to the
    /// intensity.
    pub fn apply(&self) -> (frame: LEDData)
        ensures
            frame@ == scaled_all(self.data(), self.intensity()),
    {
        apply_intensity(&self.current_data, self.intensity)
    }

    pub fn fill(&mut self, col: Rgb)
        ensures
            final(self).data() == uniform(col),
            final(self).intensity() == old(self).intensity(),
    {
        self.current_data = [col; LED_COUNT];
        assert(self.data() =~= uniform(col));
    }

    /// Sets the LED at `index`; an index past the last LED is ignored.
    pub fn set_index(&mut self, index: usize, col: Rgb)
        ensures
            index < LED_COUNT ==> final(self).data() == old(self).data().update(index as int, col),
            index >= LED_COUNT ==> final(self).data() == old(self).data(),
            final(self).intensity() == old(self).intensity(),
    {
        if index < LED_COUNT {
            self.current_data[index] = col
        }
    }

    pub fn set_data(&mut self, data: &LEDData)
        ensures
            final(self).data() == data@,
            final(self).intensity() == old(self).intensity(),
    {
        self.current_data = *data;
    }

    pub fn set_intensity(&mut self, intensity: u8)
        ensures
            final(self).data() == old(self).data(),
            final(self).intensity() == intensity,
    {
        self.intensity = intensity;
    }
}

/// Scales one colour component: `value * 100 * intensity / 25500`.
fn apply_intensity_element(value: u8, intensity: u8) -> (res: u8)
    ensures
        res == scaled(value, intensity),
{
    proof {
        crate::led_data::lemma_scaled_bounds(value, intensity);
        assert(value * 100 * intensity <= 6502500) by (nonlinear_arith)
            requires
                0 <= value <= 255,
                0 <= intensity <= 255,
        ;
        assert(value * 100 * intensity == (value * intensity) * 100) by (nonlinear_arith);
        crate::led_data::lemma_div_scaled_denominator(value * intensity, 100);
    }
    ((value as u32 * 100 * intensity as u32) / 25500) as u8
}

/// Scales every colour of `current_data`.
pub fn apply_intensity(current_data: &LEDData, intensity: u8) -> (out: LEDData)
    ensures
        out@ == scaled_all(current_data@, intensity),
{
    let mut out = *current_data;
    for i in 0..LED_COUNT
        invariant
            current_data@.len() == LED_COUNT,
            out@.len() == LED_COUNT,
            forall|j: int| 0 <= j < i ==> out@[j] == crate::led_data::scaled_color(current_data@[j], intensity),
    {
        let v = current_data[i];
        out[i] = (
            apply_intensity_element(v.0, intensity),
            apply_intensity_element(v.1, intensity),
            apply_intensity_element(v.2, intensity),
        );
    }
    assert(out@ =~= scaled_all(current_data@, intensity));
    out
}

} // verus!
