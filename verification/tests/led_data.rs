use ef28_badge::ef_led::{LedDataArr, LED_COUNT};
use ef28_badge::led_data::{
    apply_intensity_color, apply_intensity_element, apply_intensity_iter, apply_intensity_mut, LedData,
};

#[test]
fn element_formula() {
    assert_eq!(apply_intensity_element(255, 128), 128);
    assert_eq!(apply_intensity_element(128, 128), 64);
    assert_eq!(apply_intensity_element(1, 128), 0);
    assert_eq!(apply_intensity_element(200, 255), 200);
    assert_eq!(apply_intensity_element(200, 0), 0);
    assert_eq!(apply_intensity_element(255, 255), 255);
}

#[test]
fn color_and_sequences() {
    assert_eq!(apply_intensity_color((255, 128, 1), 128), (128, 64, 0));
    let v = apply_intensity_iter(&[(10, 20, 30), (255, 0, 51)], 51);
    assert_eq!(v, vec![(2, 4, 6), (51, 0, 10)]);
    let mut arr: LedDataArr = [(100, 200, 255); LED_COUNT];
    apply_intensity_mut(&mut arr, 255);
    assert_eq!(arr, [(100, 200, 255); LED_COUNT]);
    apply_intensity_mut(&mut arr, 0);
    assert_eq!(arr, [(0, 0, 0); LED_COUNT]);
}

#[test]
fn scaled_is_never_brighter() {
    for v in 0..=255u8 {
        for i in (0..=255u8).step_by(5) {
            let s = apply_intensity_element(v, i);
            assert!(s <= v && s <= i);
            assert_eq!(s as u32, v as u32 * i as u32 / 255);
        }
    }
}

#[test]
fn led_data_operations() {
    let mut d = LedData::default();
    assert_eq!(d.into_iter(), [(0, 0, 0); LED_COUNT]);
    d = LedData::new([(1, 2, 3); LED_COUNT]);
    d.set_individual(3, (9, 9, 9));
    d.set_individual(LED_COUNT, (7, 7, 7));
    let arr = LedData::new({
        let mut a = [(1, 2, 3); LED_COUNT];
        a[3] = (9, 9, 9);
        a
    });
    assert_eq!(d.into_iter(), arr.into_iter());
    let mut e = LedData::new([(1, 2, 3); LED_COUNT]);
    e.fill((255, 0, 255));
    e.apply_intensity(51);
    assert_eq!(e.into_iter(), [(51, 0, 51); LED_COUNT]);
    let mut f = LedData::default();
    f.replace([(4, 4, 4); LED_COUNT]);
    assert_eq!(f.into_iter(), [(4, 4, 4); LED_COUNT]);
}
