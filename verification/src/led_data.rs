//! LED colours and their brightness scaling.
use vstd::prelude::*;

use crate::ef_led::{LED_COUNT, LedDataArr, Rgb};

verus! {

/// A colour component at `intensity` out of 255: `value * intensity / 255`,
/// rounded down.
pub open spec fn scaled(value: u8, intensity: u8) -> u8 {
    (value * intensity / 255) as u8
}

/// A colour at `intensity` out of 255.
pub open spec fn scaled_color(color: Rgb, intensity: u8) -> Rgb {
    (scaled(color.0, intensity), scaled(color.1, intensity), scaled(color.2, intensity))
}

/// All the colours of `colors` at `intensity` out of 255.
pub open spec fn scaled_all(colors: Seq<Rgb>, intensity: u8) -> Seq<Rgb> {
    colors.map_values(|c: Rgb| scaled_color(c, intensity))
}

/// `value * intensity / 255` is at most `value` and at most `intensity`, so
/// it fits in a byte.
pub proof fn lemma_scaled_bounds(value: u8, intensity: u8)
    ensures
        value * intensity / 255 <= value,
        value * intensity / 255 <= intensity,
        scaled(value, intensity) == value * intensity / 255,
{
    assert(value * intensity / 255 <= value && value * intensity / 255 <= intensity) by (nonlinear_arith)
        requires
            0 <= value <= 255,
            0 <= intensity <= 255,
    ;
}

/// `x * k / (255 * k)` is `x / 255`.
pub proof fn lemma_div_scaled_denominator(x: int, k: int)
    requires
        0 <= x,
        0 < k,
    ensures
        (x * k) / (255 * k) == x / 255,
{
    let q = x / 255;
    let r = x % 255;
    assert(x == 255 * q + r && 0 <= r < 255);
    assert(x * k == q * (255 * k) + r * k && 0 <= r * k < 255 * k) by (nonlinear_arith)
        requires
            x == 255 * q + r,
            0 <= r < 255,
            0 < k,
    ;
    vstd::arithmetic::div_mod::lemma_fundamental_div_mod_converse(x * k, 255 * k, q, r * k);
}

/// Intensity 255 keeps a colour, intensity 0 turns it off, a scaled
/// component is never brighter than the component nor than the intensity, and
/// scaling grows with the intensity and with the component.
pub proof fn lemma_scaling_laws(value: u8, intensity: u8, other: u8)
    ensures
        scaled(value, 255) == value,
        scaled(value, 0) == 0,
        scaled(0, intensity) == 0,
        scaled(value, intensity) <= value,
        scaled(value, intensity) <= intensity,
        intensity <= other ==> scaled(value, intensity) <= scaled(value, other),
        value <= other ==> scaled(value, intensity) <= scaled(other, intensity),
{
    lemma_scaled_bounds(value, intensity);
    lemma_scaled_bounds(value, other);
    lemma_scaled_bounds(other, intensity);
    lemma_scaled_bounds(value, 255);
    lemma_scaled_bounds(value, 0);
    lemma_scaled_bounds(0, intensity);
    assert(value * 255 / 255 == value) by (nonlinear_arith);
    if intensity <= other {
        assert(value * intensity <= value * other) by (nonlinear_arith)
            requires
                intensity <= other,
                0 <= value,
        ;
        vstd::arithmetic::div_mod::lemma_div_is_ordered(value * intensity, value * other, 255);
    }
    if value <= other {
        assert(value * intensity <= other * intensity) by (nonlinear_arith)
            requires
                value <= other,
                0 <= intensity,
        ;
        vstd::arithmetic::div_mod::lemma_div_is_ordered(value * intensity, other * intensity, 255);
    }
}

/// Scaling a sequence of colours scales each colour in its place, and
/// scaling a colour scales each of its components.
pub proof fn lemma_scaled_all_pointwise(colors: Seq<Rgb>, intensity: u8)
    ensures
        scaled_all(colors, intensity).len() == colors.len(),
        forall|k: int|
            0 <= k < colors.len() ==> {
                let c = #[trigger] scaled_all(colors, intensity)[k];
                &&& c.0 == colors[k].0 * intensity / 255
                &&& c.1 == colors[k].1 * intensity / 255
                &&& c.2 == colors[k].2 * intensity / 255
            },
{
    assert forall|k: int| 0 <= k < colors.len() implies {
        let c = #[trigger] scaled_all(colors, intensity)[k];
        &&& c.0 == colors[k].0 * intensity / 255
        &&& c.1 == colors[k].1 * intensity / 255
        &&& c.2 == colors[k].2 * intensity / 255
    } by {
        lemma_scaled_bounds(colors[k].0, intensity);
        lemma_scaled_bounds(colors[k].1, intensity);
        lemma_scaled_bounds(colors[k].2, intensity);
    }
}

/// The coprocessor's two formulas, `value * 1000 * intensity / 255000` and
/// `value * 100 * intensity / 25500`, and the standalone firmware's
/// `value * intensity / 255` all give the same component.
pub proof fn lemma_scaling_formulas_agree(value: u8, intensity: u8)
    ensures
        value * 1000 * intensity / 255000 == value * intensity / 255,
        value * 100 * intensity / 25500 == value * intensity / 255,
{
    assert(value * 1000 * intensity == (value * intensity) * 1000) by (nonlinear_arith);
    assert(value * 100 * intensity == (value * intensity) * 100) by (nonlinear_arith);
    lemma_div_scaled_denominator(value * intensity, 1000);
    lemma_div_scaled_denominator(value * intensity, 100);
}

/// Scales one colour component: `value * 1000 * intensity / 255000`.
pub fn apply_intensity_element(value: u8, intensity: u8) -> (res: u8)
    ensures
        res == scaled(value, intensity),
{
    proof {
        lemma_scaled_bounds(value, intensity);
        assert(value * 1000 * intensity <= 65025000) by (nonlinear_arith)
            requires
                0 <= value <= 255,
                0 <= intensity <= 255,
        ;
        assert(value * 1000 * intensity == (value * intensity) * 1000) by (nonlinear_arith);
        lemma_div_scaled_denominator(value * intensity, 1000);
    }
    ((value as u32 * 1000 * intensity as u32) / 255000) as u8
}

/// Scales every colour of `current_data`.
pub fn apply_intensity_iter(current_data: &[Rgb], intensity: u8) -> (res: Vec<Rgb>)
    ensures
        res@ == scaled_all(current_data@, intensity),
{
    let mut out: Vec<Rgb> = Vec::new();
    for i in 0..current_data.len()
        invariant
            out@ == scaled_all(current_data@.take(i as int), intensity),
    {
        let color = current_data[i];
        out.push(apply_intensity_color(color, intensity));
        assert(scaled_all(current_data@.take(i + 1), intensity) =~= scaled_all(current_data@.take(i as int), intensity).push(scaled_color(color, intensity)));
    }
    assert(current_data@.take(current_data@.len() as int) =~= current_data@);
    out
}

/// Scales the three components of a colour.
pub fn apply_intensity_color(color: Rgb, intensity: u8) -> (res: Rgb)
    ensures
        res == scaled_color(color, intensity),
{
    (
        apply_intensity_element(color.0, intensity),
        apply_intensity_element(color.1, intensity),
        apply_intensity_element(color.2, intensity),
    )
}

/// Scales every colour of `current_data` in place.
pub fn apply_intensity_mut(current_data: &mut LedDataArr, intensity: u8)
    ensures
        final(current_data)@ == scaled_all(old(current_data)@, intensity),
{
    let ghost start = current_data@;
    for i in 0..LED_COUNT
        invariant
            start.len() == LED_COUNT,
            current_data@.len() == LED_COUNT,
            forall|j: int| 0 <= j < i ==> current_data@[j] == scaled_color(start[j], intensity),
            forall|j: int| i <= j < LED_COUNT ==> current_data@[j] == start[j],
    {
        let color = current_data[i];
        current_data[i] = apply_intensity_color(color, intensity);
    }
    assert(current_data@ =~= scaled_all(start, intensity));
}

/// The colours of all the LEDs.
pub struct LedData {
    inner: LedDataArr,
}

impl View for LedData {
    type V = Seq<Rgb>;

    closed spec fn view(&self) -> Seq<Rgb> {
        self.inner@
    }
}

/// `LED_COUNT` times the same colour.
pub open spec fn uniform(col: Rgb) -> Seq<Rgb> {
    Seq::new(LED_COUNT as nat, |i: int| col)
}

impl Default for LedData {
    /// All LEDs off.
    fn default() -> (res: Self)
        ensures
            res@ == uniform((0u8, 0u8, 0u8)),
    {
        let res = Self { inner: [(0, 0, 0); LED_COUNT] };
        assert(res@ =~= uniform((0u8, 0u8, 0u8)));
        res
    }
}

impl LedData {
    pub proof fn lemma_len(&self)
        ensures
            self@.len() == LED_COUNT,
    {
    }

    pub fn new(data: LedDataArr) -> (res: Self)
        ensures
            res@ == data@,
    {
        Self { inner: data }
    }

    /// Sets every LED to `col`.
    pub fn fill(&mut self, col: Rgb)
        ensures
            final(self)@ == uniform(col),
    {
        self.inner = [col; LED_COUNT];
        assert(self@ =~= uniform(col));
    }

    /// Sets the LED at `index` to `col`; an index past the last LED is ignored.
    pub fn set_individual(&mut self, index: usize, col: Rgb)
        ensures
            index < LED_COUNT ==> final(self)@ == old(self)@.update(index as int, col),
            index >= LED_COUNT ==> final(self)@ == old(self)@,
    {
        if index < LED_COUNT {
            self.inner[index] = col
        }
    }

    /// Sets all the LEDs to `data`.
    pub fn replace(&mut self, data: LedDataArr)
        ensures
            final(self)@ == data@,
    {
        self.inner = data;
    }

    /// The colours, first LED first.
    pub fn into_iter(self) -> (res: LedDataArr)
        ensures
            res@ == self@,
    {
        self.inner
    }

    /// Scales every colour to `intensity` out of 255.
    pub fn apply_intensity(&mut self, intensity: u8)
        ensures
            final(self)@ == scaled_all(old(self)@, intensity),
    {
        apply_intensity_mut(&mut self.inner, intensity);
    }
}

} // verus!
