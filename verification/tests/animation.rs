use ef28_badge::animation::breathing::{breathing, EYE_POSITION};
use ef28_badge::animation::colors::{BLACK, EMERY_TEAL};
use ef28_badge::animation::flag::{flag, TRANS};
use ef28_badge::animation::{Animator, Pattern};
use ef28_badge::ef_led::LED_COUNT;
use ef28_badge::led_data::{apply_intensity_color, apply_intensity_iter};

#[test]
fn flag_frames() {
    let (data, reset) = flag(0, 0);
    assert!(!reset);
    assert_eq!(data.into_iter().to_vec(), apply_intensity_iter(&TRANS, 105));
    let (data, reset) = flag(7, 150);
    assert!(!reset);
    assert_eq!(data.into_iter(), TRANS);
    let (data, reset) = flag(0, 300);
    assert!(reset);
    assert_eq!(data.into_iter().to_vec(), apply_intensity_iter(&TRANS, 105));
    // symmetric pulse
    assert_eq!(flag(0, 40).0.into_iter(), flag(0, 260).0.into_iter());
}

#[test]
fn breathing_frames() {
    let (data, reset) = breathing(0, 0);
    assert!(!reset);
    assert_eq!(data.into_iter(), [BLACK; LED_COUNT]);
    let (data, reset) = breathing(0, 160);
    assert!(!reset);
    let frame = data.into_iter();
    assert_eq!(frame[EYE_POSITION], EMERY_TEAL);
    assert_eq!(frame[0], BLACK);
    let (data, _) = breathing(3, 100);
    // step 100: intensity 100 * 100 / 100 = 100, applied twice
    let eye = apply_intensity_color(apply_intensity_color(EMERY_TEAL, 100), 100);
    assert_eq!(data.into_iter()[EYE_POSITION], eye);
    assert!(breathing(0, 320).1);
    assert_eq!(breathing(0, 20).0.into_iter(), breathing(0, 300).0.into_iter());
}

#[test]
fn pattern_numbers() {
    assert!(Pattern::from(1u8) == Pattern::Flag);
    assert!(Pattern::from(2u8) == Pattern::Flag);
    let n: u8 = Pattern::Flag.into();
    assert_eq!(n, 1);
    assert_eq!(Pattern::Flag.run(0, 10).0.into_iter(), flag(0, 10).0.into_iter());
}

#[test]
fn animator_cycles_through_the_period() {
    let mut animator = Animator::new();
    let first = animator.tick(255, 1, 0);
    assert_eq!(first, flag(0, 0).0.into_iter());
    for t in 1..=300u16 {
        let frame = animator.tick(255, 1, 0);
        assert_eq!(frame, flag(0, t).0.into_iter());
    }
    // after the last tick of the period, back to the start
    assert_eq!(animator.tick(255, 1, 0), first);
    // intensity scales the frame
    let dim = animator.tick(0, 1, 0);
    assert_eq!(dim, [BLACK; LED_COUNT]);
}
