use ef28_badge::control::Control;
use ef28_badge::ef_led::LED_COUNT;
use ef28_badge::led::{apply_intensity, EFLed, EFLedError, MAX_SAFE_INTENSITY};

#[test]
fn control_scales_at_its_intensity() {
    let mut c = Control::new();
    assert_eq!(c.apply(), [(0, 0, 0); LED_COUNT]);
    c.fill((255, 255, 255));
    // intensity 30 by default
    assert_eq!(c.apply(), [(30, 30, 30); LED_COUNT]);
    c.set_intensity(255);
    c.set_index(0, (100, 100, 230));
    c.set_index(LED_COUNT, (1, 1, 1));
    let frame = c.apply();
    assert_eq!(frame[0], (100, 100, 230));
    assert_eq!(frame[1], (255, 255, 255));
    c.set_data(&[(10, 20, 30); LED_COUNT]);
    c.set_intensity(128);
    assert_eq!(c.apply(), [(5, 10, 15); LED_COUNT]);
}

#[test]
fn efled_refuses_unsafe_intensity() {
    let mut led = EFLed::new();
    led.fill((255, 0, 255));
    // intensity 10 by default
    assert_eq!(led.transformed(), [(10, 0, 10); LED_COUNT]);
    assert_eq!(led.set_intensity(MAX_SAFE_INTENSITY + 1), Err(EFLedError::IntensityTooHigh));
    assert_eq!(led.transformed(), [(10, 0, 10); LED_COUNT]);
    assert_eq!(led.set_intensity(50), Ok(()));
    assert_eq!(led.transformed(), [(50, 0, 50); LED_COUNT]);
    led.turn_on();
    led.turn_off();
    assert_eq!(
        EFLedError::IntensityTooHigh.message(),
        "Intensity of the led is too bright for the circuits"
    );
}

#[test]
fn generic_apply_intensity() {
    assert_eq!(apply_intensity(&255, &[(1, 2, 3), (255, 254, 0)]), [(1, 2, 3), (255, 254, 0)]);
    assert_eq!(apply_intensity(&128, &[(255, 128, 1)]), [(128, 64, 0)]);
}

#[test]
fn control_apply_intensity_formula() {
    let data = [(255, 128, 1); LED_COUNT];
    assert_eq!(ef28_badge::control::apply_intensity(&data, 128), [(128, 64, 0); LED_COUNT]);
    assert_eq!(ef28_badge::control::apply_intensity(&data, 255), data);
    assert_eq!(ef28_badge::control::apply_intensity(&data, 0), [(0, 0, 0); LED_COUNT]);
}

#[test]
fn efled_frame_never_above_safe_intensity() {
    let mut led = EFLed::new();
    led.fill((255, 255, 255));
    for i in 0..=255u8 {
        let _ = led.set_intensity(i);
        assert!(led.transformed().iter().all(|c| c.0 <= 50 && c.1 <= 50 && c.2 <= 50));
    }
    assert_eq!(led.transformed(), [(50, 50, 50); LED_COUNT]);
}
