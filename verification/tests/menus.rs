use ef28_badge::buttons::{accepts_pressed, accepts_released, Button, Event, EventType};
use ef28_badge::settings::{
    header_layout, list_element_y, settings_led_mode_step, settings_led_step, settings_main_step, settings_word,
    LedSettings, MenuStep, Screen, SettingsChange, MAX_BRIGHTNESS,
};

#[test]
fn events() {
    let e = Event::new(Button::Left, EventType::Released(42));
    assert!(e.button == Button::Left);
    assert!(accepts_released(&e));
    assert!(!accepts_pressed(&e));
    let p = Event::new(Button::Right, EventType::Pressed);
    assert!(!accepts_released(&p));
    assert!(accepts_pressed(&p));
}

#[test]
fn list_positions() {
    assert_eq!(list_element_y(0), 30);
    assert_eq!(list_element_y(3), 90);
    assert_eq!(list_element_y(255), 30 + 255 * 20);
}

#[test]
fn main_menu() {
    assert_eq!(settings_main_step(0, Button::Left), MenuStep::Select(1));
    assert_eq!(settings_main_step(1, Button::Left), MenuStep::Select(0));
    assert_eq!(settings_main_step(0, Button::Right), MenuStep::Open(Screen::SettingsLed));
    assert_eq!(settings_main_step(1, Button::Right), MenuStep::Open(Screen::Presentation));
}

#[test]
fn led_menu() {
    let mut sel = 0;
    for _ in 0..4 {
        match settings_led_step(sel, Button::Left) {
            MenuStep::Select(n) => sel = n,
            other => panic!("unexpected {:?}", other),
        }
    }
    assert_eq!(sel, 0);
    assert_eq!(settings_led_step(0, Button::Right), MenuStep::Change(SettingsChange::DecreaseBrightness));
    assert_eq!(settings_led_step(1, Button::Right), MenuStep::Change(SettingsChange::IncreaseBrightness));
    assert_eq!(settings_led_step(2, Button::Right), MenuStep::Open(Screen::SettingsLedMode));
    assert_eq!(settings_led_step(3, Button::Right), MenuStep::Open(Screen::SettingsMain));
}

#[test]
fn led_mode_menu() {
    assert_eq!(settings_led_mode_step(2, Button::Left), MenuStep::Select(0));
    assert_eq!(settings_led_mode_step(0, Button::Right), MenuStep::Change(SettingsChange::SetPattern(1)));
    assert_eq!(settings_led_mode_step(1, Button::Right), MenuStep::Change(SettingsChange::SetPattern(2)));
    assert_eq!(settings_led_mode_step(2, Button::Right), MenuStep::Open(Screen::SettingsMain));
}

#[test]
fn brightness_changes_stay_safe() {
    let mut s = LedSettings { intensity: 45, pattern: 1, pattern_settings: 9 };
    for _ in 0..10 {
        s = SettingsChange::IncreaseBrightness.apply(s);
        assert!(s.intensity <= MAX_BRIGHTNESS);
    }
    assert_eq!(s.intensity, 50);
    s = SettingsChange::DecreaseBrightness.apply(s);
    assert_eq!(s.intensity, 48);
    let low = LedSettings { intensity: 1, pattern: 1, pattern_settings: 0 };
    assert_eq!(SettingsChange::DecreaseBrightness.apply(low).intensity, 0);
    let p = SettingsChange::SetPattern(2).apply(s);
    assert_eq!(p, LedSettings { intensity: 48, pattern: 2, pattern_settings: 9 });
    let inc_dec = SettingsChange::DecreaseBrightness.apply(SettingsChange::IncreaseBrightness.apply(p));
    assert_eq!(inc_dec, p);
}

#[test]
fn settings_word_layout() {
    let w = settings_word(30, 2, 0xbeef);
    assert_eq!(w, 0xbeef_021e);
    assert_eq!(w & 0xff, 30);
    assert_eq!((w >> 8) & 0xff, 2);
    assert_eq!(w >> 16, 0xbeef);
}

use ef28_badge::buttons::DebounceAction::{ArmTimer, Released, Wait};
use ef28_badge::buttons::DebounceEvent::{AnyEdge, RisingEdge, TimerExpired};
use ef28_badge::buttons::DebounceState::{Settling, WaitingRise};
use ef28_badge::buttons::debounce_step;

#[test]
fn debounce_release_needs_a_quiet_rise() {
    assert_eq!(debounce_step(WaitingRise, RisingEdge), (Settling, ArmTimer));
    assert_eq!(debounce_step(WaitingRise, AnyEdge), (WaitingRise, Wait));
    assert_eq!(debounce_step(WaitingRise, TimerExpired), (WaitingRise, Wait));
    assert_eq!(debounce_step(Settling, AnyEdge), (WaitingRise, Wait));
    assert_eq!(debounce_step(Settling, RisingEdge), (WaitingRise, Wait));
    assert_eq!(debounce_step(Settling, TimerExpired), (WaitingRise, Released));
    // a bounce: rise, edge, rise, quiet
    let mut state = WaitingRise;
    let mut released = Vec::new();
    for e in [RisingEdge, AnyEdge, RisingEdge, TimerExpired] {
        let (next, action) = debounce_step(state, e);
        state = next;
        released.push(action == Released);
    }
    assert_eq!(released, vec![false, false, false, true]);
}

#[test]
fn header_positions() {
    assert_eq!(header_layout(128), (64, 118));
    assert_eq!(header_layout(10), (5, 0));
}
