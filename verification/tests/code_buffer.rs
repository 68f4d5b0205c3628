use ef28_badge::ef_led::{build_program, CodeBuffer, Rgb, BUFFER_SIZE, LEDData, LED_COUNT};

fn written(buffer: &CodeBuffer, len: usize) -> Vec<u8> {
    buffer.as_ptr()[..len].to_vec()
}

// Reads back the colours from a program, independently of the library.
fn decode(code: &[u8]) -> Vec<Rgb> {
    let mut out = Vec::new();
    let leds = (code.len() - 12) / 288;
    for k in 0..leds {
        let led = &code[10 + 288 * k..10 + 288 * (k + 1)];
        let mut comps = [0u8; 3];
        for (c, comp) in comps.iter_mut().enumerate() {
            let mut v = 0u8;
            for bit in 0..8 {
                let chunk = &led[96 * c + 12 * bit..96 * c + 12 * bit + 12];
                v = (v << 1) | if chunk[2] == 0x01 { 1 } else { 0 };
            }
            *comp = v;
        }
        out.push((comps[1], comps[0], comps[2]));
    }
    out
}

#[test]
fn new_buffer_is_zeroed() {
    let buffer = CodeBuffer::new();
    assert_eq!(buffer.as_ptr().len(), BUFFER_SIZE);
    assert!(buffer.as_ptr().iter().all(|b| *b == 0));
}

#[test]
fn single_instructions() {
    let mut buffer = CodeBuffer::new();
    buffer.turn_on();
    buffer.turn_off();
    buffer.nop();
    buffer.ret();
    assert_eq!(written(&buffer, 8), vec![0xd0, 0xc1, 0x90, 0xc5, 0x01, 0x00, 0x82, 0x80]);
    assert_eq!(buffer.as_ptr()[8], 0);
}

#[test]
fn configure_registers_code() {
    let mut buffer = CodeBuffer::new();
    buffer.configure_registers();
    assert_eq!(
        written(&buffer, 10),
        vec![0xa9, 0x65, 0x93, 0x85, 0x05, 0x40, 0x37, 0x06, 0x00, 0x80]
    );
}

#[test]
fn write_debug_code() {
    let mut buffer = CodeBuffer::new();
    buffer.write_debug(122);
    // 02000713 li a4,0x20; 07a00693 li a3,122; 00d72023 sw a3,0(a4)
    assert_eq!(
        written(&buffer, 12),
        vec![0x13, 0x07, 0x00, 0x02, 0x93, 0x06, 0xa0, 0x07, 0x23, 0x20, 0xd7, 0x00]
    );
    let code = written(&buffer, 12);
    let word = |i: usize| u32::from_le_bytes([code[i], code[i + 1], code[i + 2], code[i + 3]]);
    // the address register a4 is loaded with 0x20 and the store has offset 0
    assert_eq!(word(0) >> 20, 0x20);
    assert_eq!((word(8) >> 15) & 0x1f, (word(0) >> 7) & 0x1f);
    assert_eq!(((word(8) >> 25) << 5) | ((word(8) >> 7) & 0x1f), 0);
    assert_eq!(word(4), 0x693 | (122 << 20));
    // the immediate reads back as the value
    let code = written(&buffer, 12);
    assert_eq!(((code[7] as u16) << 4) | (code[6] >> 4) as u16, 122);
}

#[test]
fn color_bits_msb_first() {
    let mut buffer = CodeBuffer::new();
    buffer.color(0b1000_0000);
    let code = written(&buffer, 96);
    // a one: on, 2 nops, off, 2 nops
    assert_eq!(&code[0..12], &[0xd0, 0xc1, 0x01, 0x00, 0x01, 0x00, 0x90, 0xc5, 0x01, 0x00, 0x01, 0x00]);
    // a zero: on, off, 4 nops
    for bit in 1..8 {
        assert_eq!(
            &code[12 * bit..12 * bit + 12],
            &[0xd0, 0xc1, 0x90, 0xc5, 0x01, 0x00, 0x01, 0x00, 0x01, 0x00, 0x01, 0x00]
        );
    }
    assert_eq!(buffer.as_ptr()[96], 0);
}

#[test]
fn colors_are_sent_green_red_blue() {
    let mut a = CodeBuffer::new();
    a.colors(&(1, 2, 3));
    let mut b = CodeBuffer::new();
    b.color(2);
    b.color(1);
    b.color(3);
    assert_eq!(written(&a, 288), written(&b, 288));
    assert_ne!(written(&a, 288), {
        let mut c = CodeBuffer::new();
        c.color(1);
        c.color(2);
        c.color(3);
        written(&c, 288)
    });
}

#[test]
fn program_fills_buffer_and_decodes_back() {
    let mut colors: LEDData = [(0, 0, 0); LED_COUNT];
    for (i, c) in colors.iter_mut().enumerate() {
        *c = ((i * 15) as u8, (255 - i * 7) as u8, (i * 31 % 256) as u8);
    }
    let program = build_program(&colors);
    let code = program.as_ptr();
    assert_eq!(code.len(), BUFFER_SIZE);
    assert_eq!(&code[0..10], &[0xa9, 0x65, 0x93, 0x85, 0x05, 0x40, 0x37, 0x06, 0x00, 0x80]);
    assert_eq!(&code[BUFFER_SIZE - 2..], &[0x82, 0x80]);
    assert_eq!(decode(code), colors.to_vec());
}

#[test]
fn every_bit_has_the_same_length() {
    // 10 bytes of set-up, 17 LEDs of 24 bits of 12 bytes, 2 bytes of return
    assert_eq!(10 + LED_COUNT * 24 * 12 + 2, BUFFER_SIZE);
    let black = build_program(&[(0, 0, 0); LED_COUNT]);
    let white = build_program(&[(255, 255, 255); LED_COUNT]);
    assert_eq!(black.as_ptr().len(), white.as_ptr().len());
    assert_eq!(black.as_ptr()[BUFFER_SIZE - 2..], white.as_ptr()[BUFFER_SIZE - 2..]);
}

#[test]
fn writing_an_led_changes_only_its_bytes() {
    let mut a = CodeBuffer::new();
    a.configure_registers();
    a.colors(&(200, 17, 99));
    a.ret();
    let mut b = CodeBuffer::new();
    b.configure_registers();
    b.color(17);
    b.color(200);
    b.color(99);
    b.ret();
    assert_eq!(a.as_ptr(), b.as_ptr());
    assert!(a.as_ptr()[10 + 288 + 2..].iter().all(|x| *x == 0));
}
