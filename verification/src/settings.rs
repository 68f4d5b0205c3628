//! The settings menus of the badge's screen, and the settings word shared
//! with the LED coprocessor.
use vstd::prelude::*;

use crate::buttons::Button;

verus! {

/// The screens of the badge.
#[derive(Clone, Copy, PartialEq, Eq, Structural, Debug)]
pub enum Screen {
    Presentation,
    SettingsMain,
    SettingsLed,
    SettingsLedMode,
}

/// The settings of the LEDs.
#[derive(Clone, Copy, PartialEq, Eq, Structural, Debug)]
pub struct LedSettings {
    /// Brightness, out of 255.
    pub intensity: u8,
    /// The pattern number (see `Pattern`).
    pub pattern: u8,
    /// The setting of the pattern.
    pub pattern_settings: u16,
}

pub const MIN_BRIGHTNESS: u8 = 0;

/// The brightest intensity the menu offers: the boost converter cannot power
/// all the LEDs at full power.
pub const MAX_BRIGHTNESS: u8 = 50;

/// Brightness change of one press.
pub const BRIGHTNESS_STEP: u8 = 2;

pub const HEADER_VERTICAL_PADDING: i32 = 30;

pub const LIST_ELEMENT_HEIGHT: i32 = 20;

/// Elements of the main settings menu: LED settings, presentation screen.
pub const MAIN_ELEMENTS_COUNT: u8 = 2;

/// Elements of the LED settings menu: decrease brightness, increase
/// brightness, LED mode, back.
pub const LED_ELEMENTS_COUNT: u8 = 4;

/// Elements of the LED mode menu: flag, breathing, back.
pub const LED_MODE_ELEMENTS_COUNT: u8 = 3;

/// The baseline of the `index`-th element of a menu list.
pub fn list_element_y(index: u8) -> (y: i32)
    ensures
        y == HEADER_VERTICAL_PADDING + index * LIST_ELEMENT_HEIGHT,
{
    HEADER_VERTICAL_PADDING + (index as i32) * LIST_ELEMENT_HEIGHT
}

/// Where a menu header goes on a display `width` pixels wide: the x of the
/// centred title, and the x where the line under it ends (it starts at 10).
/// A display narrower than 10 pixels has no room for the line.
pub fn header_layout(width: u32) -> (res: (i32, i32))
    requires
        width >= 10,
    ensures
        res.0 == (width / 2) as i32,
        res.1 == (width - 10) as i32,
{
    ((width / 2) as i32, (width - 10) as i32)
}

/// A change of the LED settings that a menu asks for.
#[derive(Clone, Copy, PartialEq, Eq, Structural, Debug)]
pub enum SettingsChange {
    DecreaseBrightness,
    IncreaseBrightness,
    SetPattern(u8),
}

/// `intensity` two steps darker, at least `MIN_BRIGHTNESS`.
pub open spec fn darker(intensity: u8) -> u8 {
    if intensity < BRIGHTNESS_STEP {
        MIN_BRIGHTNESS
    } else {
        (intensity - BRIGHTNESS_STEP) as u8
    }
}

/// `intensity` two steps brighter, at most `MAX_BRIGHTNESS`.
pub open spec fn brighter(intensity: u8) -> u8 {
    if intensity + BRIGHTNESS_STEP > MAX_BRIGHTNESS {
        MAX_BRIGHTNESS
    } else {
        (intensity + BRIGHTNESS_STEP) as u8
    }
}

/// The settings after `change`.
pub open spec fn changed(change: SettingsChange, settings: LedSettings) -> LedSettings {
    match change {
        SettingsChange::DecreaseBrightness => LedSettings { intensity: darker(settings.intensity), ..settings },
        SettingsChange::IncreaseBrightness => LedSettings { intensity: brighter(settings.intensity), ..settings },
        SettingsChange::SetPattern(p) => LedSettings { pattern: p, ..settings },
    }
}

impl SettingsChange {
    /// The settings after the change.
    pub fn apply(self, settings: LedSettings) -> (res: LedSettings)
        ensures
            res == changed(self, settings),
            res.pattern_settings == settings.pattern_settings,
            self == SettingsChange::IncreaseBrightness ==> res.pattern == settings.pattern && res.intensity
                == (if settings.intensity + 2 <= 50 {
                settings.intensity + 2
            } else {
                50
            }),
            self == SettingsChange::DecreaseBrightness ==> res.pattern == settings.pattern && res.intensity
                == (if settings.intensity >= 2 {
                settings.intensity - 2
            } else {
                0
            }),
            self matches SettingsChange::SetPattern(p) ==> res.pattern == p && res.intensity
                == settings.intensity,
    {
        let mut settings = settings;
        match self {
            SettingsChange::DecreaseBrightness => {
                settings.intensity = MIN_BRIGHTNESS.max(settings.intensity.saturating_sub(BRIGHTNESS_STEP));
            },
            SettingsChange::IncreaseBrightness => {
                settings.intensity = MAX_BRIGHTNESS.min(settings.intensity.saturating_add(BRIGHTNESS_STEP));
            },
            SettingsChange::SetPattern(p) => {
                settings.pattern = p;
            },
        }
        settings
    }
}

/// What a menu does after a button is released.
#[derive(Clone, Copy, PartialEq, Eq, Structural, Debug)]
pub enum MenuStep {
    /// Stay in the menu with this element selected.
    Select(u8),
    /// Stay in the menu, with the same element selected, and change the LED
    /// settings.
    Change(SettingsChange),
    /// Leave the menu for this screen.
    Open(Screen),
}

/// The main settings menu: 0 opens the LED settings, 1 the presentation
/// screen.
pub fn settings_main_step(selected: u8, button: Button) -> (res: MenuStep)
    requires
        selected < u8::MAX,
    ensures
        button == Button::Left ==> res == MenuStep::Select(((selected + 1) % MAIN_ELEMENTS_COUNT as int) as u8),
        button == Button::Right && selected == 0 ==> res == MenuStep::Open(Screen::SettingsLed),
        button == Button::Right && selected != 0 ==> res == MenuStep::Open(Screen::Presentation),
{
    match button {
        Button::Left => MenuStep::Select((selected + 1) % MAIN_ELEMENTS_COUNT),
        Button::Right => match selected {
            0 => MenuStep::Open(Screen::SettingsLed),
            1 => MenuStep::Open(Screen::Presentation),
            _ => MenuStep::Open(Screen::Presentation),
        },
    }
}

/// The LED settings menu: 0 decreases the brightness, 1 increases it, 2 opens
/// the LED mode menu, 3 goes back to the main settings.
pub fn settings_led_step(selected: u8, button: Button) -> (res: MenuStep)
    requires
        selected < u8::MAX,
    ensures
        button == Button::Left ==> res == MenuStep::Select(((selected + 1) % LED_ELEMENTS_COUNT as int) as u8),
        button == Button::Right && selected == 0 ==> res == MenuStep::Change(SettingsChange::DecreaseBrightness),
        button == Button::Right && selected == 1 ==> res == MenuStep::Change(SettingsChange::IncreaseBrightness),
        button == Button::Right && selected == 2 ==> res == MenuStep::Open(Screen::SettingsLedMode),
        button == Button::Right && selected > 2 ==> res == MenuStep::Open(Screen::SettingsMain),
{
    match button {
        Button::Left => MenuStep::Select((selected + 1) % LED_ELEMENTS_COUNT),
        Button::Right => match selected {
            0 => MenuStep::Change(SettingsChange::DecreaseBrightness),
            1 => MenuStep::Change(SettingsChange::IncreaseBrightness),
            2 => MenuStep::Open(Screen::SettingsLedMode),
            3 => MenuStep::Open(Screen::SettingsMain),
            _ => MenuStep::Open(Screen::SettingsMain),
        },
    }
}

/// The LED mode menu: 0 selects the flag (pattern 1), 1 the breathing
/// (pattern 2), 2 goes back to the main settings.
pub fn settings_led_mode_step(selected: u8, button: Button) -> (res: MenuStep)
    requires
        selected < u8::MAX,
    ensures
        button == Button::Left ==> res == MenuStep::Select(((selected + 1) % LED_MODE_ELEMENTS_COUNT as int) as u8),
        button == Button::Right && selected == 0 ==> res == MenuStep::Change(SettingsChange::SetPattern(1)),
        button == Button::Right && selected == 1 ==> res == MenuStep::Change(SettingsChange::SetPattern(2)),
        button == Button::Right && selected > 1 ==> res == MenuStep::Open(Screen::SettingsMain),
{
    match button {
        Button::Left => MenuStep::Select((selected + 1) % LED_MODE_ELEMENTS_COUNT),
        Button::Right => match selected {
            0 => MenuStep::Change(SettingsChange::SetPattern(1)),
            1 => MenuStep::Change(SettingsChange::SetPattern(2)),
            2 => MenuStep::Open(Screen::SettingsMain),
            _ => MenuStep::Open(Screen::SettingsMain),
        },
    }
}

/// The settings word shared with the LED coprocessor: the intensity in bits
/// 0 to 7, the pattern in bits 8 to 15, the pattern setting in bits 16 to 31.
pub fn settings_word(intensity: u8, pattern: u8, pattern_setting: u16) -> (word: u32)
    ensures
        word == intensity + 256 * pattern + 65536 * pattern_setting,
        word & 0xffu32 == intensity,
        (word >> 8u32) & 0xffu32 == pattern,
        word >> 16u32 == pattern_setting,
{
    let a = intensity as u32;
    let b = pattern as u32;
    let c = pattern_setting as u32;
    let word = a | b << 8 | c << 16;
    assert(a <= 0xff && b <= 0xff && c <= 0xffff ==> {
        &&& (a | b << 8u32 | c << 16u32) == a + 256 * b + 65536 * c
        &&& (a | b << 8u32 | c << 16u32) & 0xffu32 == a
        &&& ((a | b << 8u32 | c << 16u32) >> 8u32) & 0xffu32 == b
        &&& (a | b << 8u32 | c << 16u32) >> 16u32 == c
    }) by (bit_vector);
    word
}

/// The settings after each of `changes` in turn.
pub open spec fn changed_all(changes: Seq<SettingsChange>, settings: LedSettings) -> LedSettings
    decreases changes.len(),
{
    if changes.len() == 0 {
        settings
    } else {
        changed(changes.last(), changed_all(changes.drop_last(), settings))
    }
}

/// Increasing the brightness never goes above `MAX_BRIGHTNESS`, and no
/// change of the menus takes a brightness of at most `MAX_BRIGHTNESS` above
/// it: whatever the menus are asked, the LEDs stay within what the boost
/// converter can power (`led::MAX_SAFE_INTENSITY`).
pub proof fn lemma_brightness_stays_safe(changes: Seq<SettingsChange>, settings: LedSettings)
    requires
        settings.intensity <= MAX_BRIGHTNESS,
    ensures
        changed_all(changes, settings).intensity <= MAX_BRIGHTNESS,
        changed_all(changes, settings).intensity <= crate::led::MAX_SAFE_INTENSITY,
        changed(SettingsChange::IncreaseBrightness, settings).intensity <= MAX_BRIGHTNESS,
    decreases changes.len(),
{
    if changes.len() > 0 {
        lemma_brightness_stays_safe(changes.drop_last(), settings);
    }
}

/// Selecting a pattern sets it, whatever pattern was set before, and keeps
/// the brightness and the pattern setting.
pub proof fn lemma_set_pattern(p: u8, settings: LedSettings)
    ensures
        changed(SettingsChange::SetPattern(p), settings).pattern == p,
        changed(SettingsChange::SetPattern(p), settings).intensity == settings.intensity,
        changed(SettingsChange::SetPattern(p), settings).pattern_settings == settings.pattern_settings,
        changed(SettingsChange::SetPattern(p), changed(SettingsChange::SetPattern(p), settings))
            == changed(SettingsChange::SetPattern(p), settings),
{
}

/// Whatever the pattern and its setting, increasing the brightness adds 2 up
/// to 50 and decreasing it takes 2 away down to 0; neither touches the
/// pattern nor its setting.
pub proof fn lemma_brightness_steps(settings: LedSettings)
    ensures
        settings.intensity <= 48 ==> changed(SettingsChange::IncreaseBrightness, settings).intensity
            == settings.intensity + 2,
        settings.intensity >= 48 ==> changed(SettingsChange::IncreaseBrightness, settings).intensity == 50,
        settings.intensity >= 2 ==> changed(SettingsChange::DecreaseBrightness, settings).intensity + 2
            == settings.intensity,
        settings.intensity < 2 ==> changed(SettingsChange::DecreaseBrightness, settings).intensity == 0,
        changed(SettingsChange::IncreaseBrightness, settings).pattern == settings.pattern,
        changed(SettingsChange::DecreaseBrightness, settings).pattern == settings.pattern,
        changed(SettingsChange::IncreaseBrightness, settings).pattern_settings == settings.pattern_settings,
        changed(SettingsChange::DecreaseBrightness, settings).pattern_settings == settings.pattern_settings,
{
}

/// A brightness change touches only the intensity, a pattern change only the
/// pattern.
pub proof fn lemma_change_frame(change: SettingsChange, settings: LedSettings)
    ensures
        changed(change, settings).pattern_settings == settings.pattern_settings,
        change is SetPattern ==> changed(change, settings).intensity == settings.intensity,
        !(change is SetPattern) ==> changed(change, settings).pattern == settings.pattern,
{
}

/// Decreasing the brightness undoes an increase that did not hit the
/// maximum, and increasing it undoes a decrease that did not hit the
/// minimum.
pub proof fn lemma_brightness_undo(settings: LedSettings)
    ensures
        settings.intensity + BRIGHTNESS_STEP <= MAX_BRIGHTNESS ==> changed(
            SettingsChange::DecreaseBrightness,
            changed(SettingsChange::IncreaseBrightness, settings),
        ) == settings,
        BRIGHTNESS_STEP <= settings.intensity <= MAX_BRIGHTNESS ==> changed(
            SettingsChange::IncreaseBrightness,
            changed(SettingsChange::DecreaseBrightness, settings),
        ) == settings,
{
}

/// The element selected after `n` presses of the left button from `selected`
/// in a menu of `count` elements.
pub open spec fn after_lefts(selected: int, count: int, n: nat) -> int
    decreases n,
{
    if n == 0 {
        selected
    } else {
        (after_lefts(selected, count, (n - 1) as nat) + 1) % count
    }
}

proof fn lemma_after_lefts_mod(selected: int, count: int, n: nat)
    requires
        0 <= selected < count,
    ensures
        after_lefts(selected, count, n) == (selected + n) % count,
    decreases n,
{
    if n > 0 {
        lemma_after_lefts_mod(selected, count, (n - 1) as nat);
        let m: int = selected + n;
        vstd::arithmetic::div_mod::lemma_add_mod_noop_right(1, m - 1, count);
        assert(1 + (m - 1) == m);
    } else {
        vstd::arithmetic::div_mod::lemma_small_mod(selected as nat, count as nat);
    }
}

/// In each menu the left button moves to the next element, and pressing it
/// as many times as the menu has elements selects the element it started
/// from.
pub proof fn lemma_left_cycles(selected: u8)
    ensures
        selected < MAIN_ELEMENTS_COUNT ==> after_lefts(selected as int, MAIN_ELEMENTS_COUNT as int, MAIN_ELEMENTS_COUNT as nat) == selected,
        selected < LED_ELEMENTS_COUNT ==> after_lefts(selected as int, LED_ELEMENTS_COUNT as int, LED_ELEMENTS_COUNT as nat) == selected,
        selected < LED_MODE_ELEMENTS_COUNT ==> after_lefts(selected as int, LED_MODE_ELEMENTS_COUNT as int, LED_MODE_ELEMENTS_COUNT as nat) == selected,
{
    let counts: Seq<int> = seq![MAIN_ELEMENTS_COUNT as int, LED_ELEMENTS_COUNT as int, LED_MODE_ELEMENTS_COUNT as int];
    assert forall|k: int| 0 <= k < 3 && selected < #[trigger] counts[k] implies after_lefts(selected as int, counts[k], counts[k] as nat) == selected by {
        let c = counts[k];
        lemma_after_lefts_mod(selected as int, c, c as nat);
        vstd::arithmetic::div_mod::lemma_mod_add_multiples_vanish(selected as int, c);
        vstd::arithmetic::div_mod::lemma_small_mod(selected as nat, c as nat);
    }
    assert(counts[0] == MAIN_ELEMENTS_COUNT);
    assert(counts[1] == LED_ELEMENTS_COUNT);
    assert(counts[2] == LED_MODE_ELEMENTS_COUNT);
}

} // verus!
