//! Driving WS2812B LEDs from the ULP RISC-V processor of the ESP32-S3.
//!
//! The processor is too slow to run a loop and still meet the WS2812B
//! timings, so the data to send is turned into a straight-line program in raw
//! RISC-V machine code, which is executed once it is complete. Every bit is
//! encoded by the same number of instructions, so every bit takes the same
//! time on the wire.
use vstd::prelude::*;

verus! {

/// Number of NOPs while high for a `1` bit (WS2812B naming: T1H).
pub const T1H: u8 = 2;
/// Number of NOPs while low for a `0` bit (WS2812B naming: T0L).
pub const T0L: u8 = 4;
/// Number of NOPs while low for a `1` bit (WS2812B naming: T1L).
pub const T1L: u8 = 2;

/// Number of LEDs on the badge.
pub const LED_COUNT: usize = 17;

/// A colour as (red, green, blue).
pub type Rgb = (u8, u8, u8);

/// The colours of all the LEDs.
pub type LEDData = [Rgb; LED_COUNT];

/// The colours of all the LEDs.
pub type LedDataArr = [Rgb; LED_COUNT];

/// Size of the code buffer: 10 bytes of set-up, 17 LEDs of 24 bits of
/// 12 bytes each, and the 2-byte return.
pub const BUFFER_SIZE: usize = 4908;

/// `c1d0   sw a2,4(a1)`: drive the data line high.
pub open spec fn instr_on() -> Seq<u8> {
    seq![0xd0u8, 0xc1u8]
}

/// `c590   sw a2,8(a1)`: drive the data line low.
pub open spec fn instr_off() -> Seq<u8> {
    seq![0x90u8, 0xc5u8]
}

/// `0001   nop`.
pub open spec fn instr_nop() -> Seq<u8> {
    seq![0x01u8, 0x00u8]
}

/// `8082   ret`.
pub open spec fn instr_ret() -> Seq<u8> {
    seq![0x82u8, 0x80u8]
}

/// `lui a1,0xa`, `addi a1,a1,1024`, `lui a2,0x80000`: load the GPIO
/// register base and the pin mask.
pub open spec fn code_configure() -> Seq<u8> {
    seq![0xa9u8, 0x65u8, 0x93u8, 0x85u8, 0x05u8, 0x40u8, 0x37u8, 0x06u8, 0x00u8, 0x80u8]
}

/// Address of the debug word shared with the main processor.
pub const DEBUG_ADDRESS: u32 = 0x20;

/// `li a4,0x20`, `li a3,value`, `sw a3,0(a4)`: store a debug code at
/// address 0x20, where the main processor can read it.
pub open spec fn code_debug(value: u8) -> Seq<u8> {
    seq![
        0x13u8, 0x07u8, 0x00u8, 0x02u8,
        0x93u8, 0x06u8, value << 4u8, value >> 4u8,
        0x23u8, 0x20u8, 0xd7u8, 0x00u8
    ]
}

/// The little-endian 32-bit instruction word at byte `i` of `code`.
pub open spec fn word_at(code: Seq<u8>, i: int) -> u32 {
    (code[i] as u32) | ((code[i + 1] as u32) << 8u32) | ((code[i + 2] as u32) << 16u32) | ((code[i + 3] as u32) << 24u32)
}

/// The destination register of an instruction word.
pub open spec fn rd(word: u32) -> u32 {
    (word >> 7u32) & 0x1fu32
}

/// The first source register of an instruction word.
pub open spec fn rs1(word: u32) -> u32 {
    (word >> 15u32) & 0x1fu32
}

/// The second source register of an instruction word.
pub open spec fn rs2(word: u32) -> u32 {
    (word >> 20u32) & 0x1fu32
}

/// The immediate of an I-type instruction word (non-negative here).
pub open spec fn imm_i(word: u32) -> u32 {
    word >> 20u32
}

/// The immediate of an S-type instruction word (non-negative here).
pub open spec fn imm_s(word: u32) -> u32 {
    ((word >> 25u32) << 5u32) | ((word >> 7u32) & 0x1fu32)
}

/// `n` NOP instructions.
pub open spec fn nops(n: nat) -> Seq<u8>
    decreases n,
{
    if n == 0 {
        Seq::empty()
    } else {
        nops((n - 1) as nat) + instr_nop()
    }
}

/// The code that sends one bit: high, wait, low, wait.
pub open spec fn encode_bit(bit: bool) -> Seq<u8> {
    if bit {
        instr_on() + nops(T1H as nat) + instr_off() + nops(T1L as nat)
    } else {
        instr_on() + instr_off() + nops(T0L as nat)
    }
}

/// The `i`-th bit sent of `value`: bits go most significant first.
pub open spec fn bit_sent(value: u8, i: u8) -> bool {
    (value >> ((7 - i) as u8)) & 1u8 == 1u8
}

/// The code that sends the first `n` bits of `value`.
pub open spec fn encode_bits(value: u8, n: nat) -> Seq<u8>
    decreases n,
{
    if n == 0 {
        Seq::empty()
    } else {
        encode_bits(value, (n - 1) as nat) + encode_bit(bit_sent(value, (n - 1) as u8))
    }
}

/// The code that sends one 8-bit colour component.
pub open spec fn encode_color(value: u8) -> Seq<u8> {
    encode_bits(value, 8)
}

/// The code that sends one LED: the WS2812B takes green, then red, then blue.
pub open spec fn encode_led(rgb: Rgb) -> Seq<u8> {
    encode_color(rgb.1) + encode_color(rgb.0) + encode_color(rgb.2)
}

/// The code that sends a sequence of LEDs, first LED first.
pub open spec fn encode_leds(leds: Seq<Rgb>) -> Seq<u8>
    decreases leds.len(),
{
    if leds.len() == 0 {
        Seq::empty()
    } else {
        encode_leds(leds.drop_last()) + encode_led(leds.last())
    }
}

/// The whole program that sends `leds` and returns.
pub open spec fn program(leds: Seq<Rgb>) -> Seq<u8> {
    code_configure() + encode_leds(leds) + instr_ret()
}

/// Reads back the bit that 12 bytes of code send: in the code of a `1` the
/// third byte is that of a NOP, in the code of a `0` it is that of the store
/// that drives the line low.
pub open spec fn decode_bit(code: Seq<u8>) -> bool {
    code[2] == 0x01u8
}

/// Reads back the value whose first `n` bits the code sends.
pub open spec fn decode_bits(code: Seq<u8>, n: nat) -> u8
    decreases n,
{
    if n == 0 {
        0u8
    } else {
        (decode_bits(code, (n - 1) as nat) << 1u8) | (if decode_bit(
            code.subrange(12 * (n - 1), 12 * (n as int)),
        ) {
            1u8
        } else {
            0u8
        })
    }
}

/// Reads back the colour component that 96 bytes of code send.
pub open spec fn decode_color(code: Seq<u8>) -> u8 {
    decode_bits(code, 8)
}

/// Reads back the LED colour that 288 bytes of code send (green, red, blue).
pub open spec fn decode_led(code: Seq<u8>) -> Rgb {
    (
        decode_color(code.subrange(96, 192)),
        decode_color(code.subrange(0, 96)),
        decode_color(code.subrange(192, 288)),
    )
}

/// Reads back the LED colours that a whole program sends.
pub open spec fn decode_program(code: Seq<u8>) -> Seq<Rgb> {
    Seq::new(
        ((code.len() - 12) / 288) as nat,
        |k: int| decode_led(code.subrange(10 + 288 * k, 10 + 288 * k + 288)),
    )
}

/// `mem` with `code` written over it from byte `at` on.
pub open spec fn splice(mem: Seq<u8>, at: int, code: Seq<u8>) -> Seq<u8> {
    mem.take(at) + code + mem.skip(at + code.len())
}

/// A buffer of machine code being written, with the position of the next
/// instruction.
pub struct CodeBuffer {
    buffer: [u8; BUFFER_SIZE],
    pointer: usize,
}

impl CodeBuffer {
    /// The whole buffer.
    pub closed spec fn memory(&self) -> Seq<u8> {
        self.buffer@
    }

    /// The position where the next instruction goes.
    pub closed spec fn pos(&self) -> nat {
        self.pointer as nat
    }

    /// The buffer always holds `BUFFER_SIZE` bytes.
    pub proof fn lemma_memory_len(&self)
        ensures
            self.memory().len() == BUFFER_SIZE,
    {
    }

    /// The code written so far.
    pub open spec fn written(&self) -> Seq<u8> {
        self.memory().take(self.pos() as int)
    }

    /// An empty buffer, filled with zeroes.
    pub fn new() -> (res: Self)
        ensures
            res.pos() == 0,
            res.memory() == Seq::new(BUFFER_SIZE as nat, |i: int| 0u8),
    {
        let buffer: [u8; BUFFER_SIZE] = [0; BUFFER_SIZE];
        let res = Self { buffer, pointer: 0 };
        assert(res.memory() =~= Seq::new(BUFFER_SIZE as nat, |i: int| 0u8));
        res
    }

    /// Writes one two-byte instruction (low byte first).
    fn emit2(&mut self, lo: u8, hi: u8)
        requires
            old(self).pos() + 2 <= BUFFER_SIZE,
        ensures
            final(self).pos() == old(self).pos() + 2,
            final(self).memory() == splice(old(self).memory(), old(self).pos() as int, seq![lo, hi]),
    {
        let p = self.pointer;
        self.buffer[p] = lo;
        self.buffer[p + 1] = hi;
        self.pointer = p + 2;
        assert(self.memory() =~= splice(old(self).memory(), p as int, seq![lo, hi]));
    }

    /// Writes `c1d0   sw a2,4(a1)`: data line high.
    pub fn turn_on(&mut self)
        requires
            old(self).pos() + 2 <= BUFFER_SIZE,
        ensures
            final(self).pos() == old(self).pos() + 2,
            final(self).memory() == splice(old(self).memory(), old(self).pos() as int, instr_on()),
    {
        self.emit2(0xd0, 0xc1);
    }

    /// Writes `c590   sw a2,8(a1)`: data line low.
    pub fn turn_off(&mut self)
        requires
            old(self).pos() + 2 <= BUFFER_SIZE,
        ensures
            final(self).pos() == old(self).pos() + 2,
            final(self).memory() == splice(old(self).memory(), old(self).pos() as int, instr_off()),
    {
        self.emit2(0x90, 0xc5);
    }

    /// Writes `0001   nop`.
    pub fn nop(&mut self)
        requires
            old(self).pos() + 2 <= BUFFER_SIZE,
        ensures
            final(self).pos() == old(self).pos() + 2,
            final(self).memory() == splice(old(self).memory(), old(self).pos() as int, instr_nop()),
    {
        self.emit2(0x01, 0x00);
    }

    /// Writes `8082   ret`.
    pub fn ret(&mut self)
        requires
            old(self).pos() + 2 <= BUFFER_SIZE,
        ensures
            final(self).pos() == old(self).pos() + 2,
            final(self).memory() == splice(old(self).memory(), old(self).pos() as int, instr_ret()),
    {
        let p = self.pointer;
        self.buffer[p + 1] = 0x80;
        self.buffer[p] = 0x82;
        self.pointer = p + 2;
        assert(self.memory() =~= splice(old(self).memory(), p as int, instr_ret()));
    }

    /// Writes the set-up code: `lui a1,0xa`, `addi a1,a1,1024` (so that the
    /// stores of `turn_on` and `turn_off` fit in compressed instructions) and
    /// `lui a2,0x80000`.
    pub fn configure_registers(&mut self)
        requires
            old(self).pos() + 10 <= BUFFER_SIZE,
        ensures
            final(self).pos() == old(self).pos() + 10,
            final(self).memory() == splice(old(self).memory(), old(self).pos() as int, code_configure()),
    {
        let p = self.pointer;
        // 65a9    lui  a1,0xa
        self.buffer[p] = 0xa9;
        self.buffer[p + 1] = 0x65;
        // 40058593    addi  a1,a1,1024
        self.buffer[p + 2] = 0x93;
        self.buffer[p + 3] = 0x85;
        self.buffer[p + 4] = 0x05;
        self.buffer[p + 5] = 0x40;
        // 80000637    lui  a2,0x80000
        self.buffer[p + 6] = 0x37;
        self.buffer[p + 7] = 0x06;
        self.buffer[p + 8] = 0x00;
        self.buffer[p + 9] = 0x80;
        self.pointer = p + 10;
        assert(self.memory() =~= splice(old(self).memory(), p as int, code_configure()));
    }

    /// Writes the code that stores the debug code `value` at address 0x20
    /// (`DEBUG_ADDRESS`), where the main processor can read it.
    pub fn write_debug(&mut self, value: u8)
        requires
            old(self).pos() + 12 <= BUFFER_SIZE,
        ensures
            final(self).pos() == old(self).pos() + 12,
            final(self).memory() == splice(old(self).memory(), old(self).pos() as int, code_debug(value)),
    {
        let p = self.pointer;
        // 02000713    li  a4,0x20
        self.buffer[p] = 0x13;
        self.buffer[p + 1] = 0x07;
        self.buffer[p + 2] = 0x00;
        self.buffer[p + 3] = 0x02;
        // 00000693 | value << 20    li  a3,value
        self.buffer[p + 4] = 0x93;
        self.buffer[p + 5] = 0x06;
        self.buffer[p + 6] = value << 4;
        self.buffer[p + 7] = value >> 4;
        // 00d72023    sw  a3,0(a4)
        self.buffer[p + 8] = 0x23;
        self.buffer[p + 9] = 0x20;
        self.buffer[p + 10] = 0xd7;
        self.buffer[p + 11] = 0x00;
        self.pointer = p + 12;
        assert(self.memory() =~= splice(old(self).memory(), p as int, code_debug(value)));
    }

    /// Writes `count` NOPs.
    fn wait(&mut self, count: u8)
        requires
            old(self).pos() + 2 * count <= BUFFER_SIZE,
        ensures
            final(self).pos() == old(self).pos() + 2 * count,
            final(self).memory() == splice(old(self).memory(), old(self).pos() as int, nops(count as nat)),
    {
        let ghost m0 = self.memory();
        let ghost p0 = self.pos() as int;
        assert(m0 =~= splice(m0, p0, nops(0)));
        for j in 0u8..count
            invariant
                0 <= p0,
                p0 + 2 * count <= BUFFER_SIZE,
                m0.len() == BUFFER_SIZE,
                self.pos() == p0 + 2 * j,
                self.memory() == splice(m0, p0, nops(j as nat)),
        {
            proof {
                lemma_nops_len(j as nat);
                lemma_splice_append(m0, p0, nops(j as nat), instr_nop());
            }
            self.nop();
        }
    }

    /// Writes the code for one bit.
    fn bit(&mut self, bit: bool)
        requires
            old(self).pos() + 12 <= BUFFER_SIZE,
        ensures
            final(self).pos() == old(self).pos() + 12,
            final(self).memory() == splice(old(self).memory(), old(self).pos() as int, encode_bit(bit)),
    {
        let ghost m0 = self.memory();
        let ghost p0 = self.pos() as int;
        proof {
            lemma_nops_len(2);
            lemma_nops_len(4);
        }
        self.turn_on();
        if bit {
            // a 1: high for about 800 ns,
            self.wait(T1H);
            proof { lemma_splice_append(m0, p0, instr_on(), nops(2)); }
            // then low for about 450 ns
            self.turn_off();
            proof { lemma_splice_append(m0, p0, instr_on() + nops(2), instr_off()); }
            self.wait(T1L);
            proof { lemma_splice_append(m0, p0, instr_on() + nops(2) + instr_off(), nops(2)); }
        } else {
            // a 0: high for about 400 ns, then low for about 850 ns
            self.turn_off();
            proof { lemma_splice_append(m0, p0, instr_on(), instr_off()); }
            self.wait(T0L);
            proof { lemma_splice_append(m0, p0, instr_on() + instr_off(), nops(4)); }
        }
    }

    /// Writes the code that sends one colour component (called three times per
    /// LED), most significant bit first.
    pub fn color(&mut self, value: u8)
        requires
            old(self).pos() + 96 <= BUFFER_SIZE,
        ensures
            final(self).pos() == old(self).pos() + 96,
            final(self).memory() == splice(old(self).memory(), old(self).pos() as int, encode_color(value)),
    {
        let ghost m0 = self.memory();
        let ghost p0 = self.pos() as int;
        assert(m0 =~= splice(m0, p0, encode_bits(value, 0)));
        for i in 0u8..8u8
            invariant
                0 <= p0,
                p0 + 96 <= BUFFER_SIZE,
                m0.len() == BUFFER_SIZE,
                self.pos() == p0 + 12 * i,
                self.memory() == splice(m0, p0, encode_bits(value, i as nat)),
        {
            proof {
                lemma_encode_bits_len(value, i as nat);
                lemma_encode_bit_len(bit_sent(value, i));
                lemma_splice_append(m0, p0, encode_bits(value, i as nat), encode_bit(bit_sent(value, i)));
            }
            let one = (value >> (7 - i)) & 1 == 1;
            self.bit(one);
            assert(encode_bits(value, (i + 1) as nat) == encode_bits(value, i as nat) + encode_bit(bit_sent(value, i)));
        }
    }

    /// Writes the code that sends the 24 bits of one LED: green, then red,
    /// then blue, as the WS2812B expects them.
    pub fn colors(&mut self, rgb: &Rgb)
        requires
            old(self).pos() + 288 <= BUFFER_SIZE,
        ensures
            final(self).pos() == old(self).pos() + 288,
            final(self).memory() == splice(old(self).memory(), old(self).pos() as int, encode_led(*rgb)),
    {
        let ghost m0 = self.memory();
        let ghost p0 = self.pos() as int;
        let (r, g, b) = *rgb;
        proof { lemma_encode_led_len(*rgb); }
        self.color(g);
        self.color(r);
        proof { lemma_splice_append(m0, p0, encode_color(g), encode_color(r)); }
        self.color(b);
        proof { lemma_splice_append(m0, p0, encode_color(g) + encode_color(r), encode_color(b)); }
    }

    /// The bytes of the buffer, from which the program is run.
    pub fn as_ptr(&self) -> (res: &[u8])
        ensures
            res@ == self.memory(),
    {
        self.buffer.as_slice()
    }
}

/// Builds the program that sends `colors_array` to the LEDs and returns.
pub fn build_program(colors_array: &LEDData) -> (res: CodeBuffer)
    ensures
        res.pos() == BUFFER_SIZE,
        res.written() == program(colors_array@),
        res.memory() == program(colors_array@),
{
    let mut buffer = CodeBuffer::new();
    let ghost m0 = buffer.memory();
    buffer.configure_registers();
    proof {
        assert(encode_leds(colors_array@.take(0)) =~= Seq::<u8>::empty());
        assert(code_configure() + encode_leds(colors_array@.take(0)) =~= code_configure());
    }
    for i in 0..LED_COUNT
        invariant
            m0.len() == BUFFER_SIZE,
            buffer.pos() == 10 + 288 * i,
            buffer.memory() == splice(m0, 0, code_configure() + encode_leds(colors_array@.take(i as int))),
    {
        proof {
            lemma_encode_leds_len(colors_array@.take(i as int));
            lemma_encode_led_len(colors_array@[i as int]);
            lemma_splice_append(m0, 0, code_configure() + encode_leds(colors_array@.take(i as int)), encode_led(colors_array@[i as int]));
            assert(colors_array@.take(i + 1).drop_last() =~= colors_array@.take(i as int));
        }
        buffer.colors(&colors_array[i]);
        assert(code_configure() + encode_leds(colors_array@.take(i + 1)) =~= code_configure() + encode_leds(colors_array@.take(i as int)) + encode_led(colors_array@[i as int]));
    }
    proof {
        assert(colors_array@.take(LED_COUNT as int) =~= colors_array@);
        lemma_encode_leds_len(colors_array@);
        lemma_splice_append(m0, 0, code_configure() + encode_leds(colors_array@), instr_ret());
    }
    buffer.ret();
    proof {
        lemma_program_len(colors_array@);
        assert(buffer.memory() =~= program(colors_array@));
    }
    buffer
}


/// Writing `a` and then `b` right behind it is writing `a + b`.
pub proof fn lemma_splice_append(mem: Seq<u8>, at: int, a: Seq<u8>, b: Seq<u8>)
    requires
        0 <= at,
        at + a.len() + b.len() <= mem.len(),
    ensures
        splice(splice(mem, at, a), at + a.len(), b) == splice(mem, at, a + b),
        splice(mem, at, a).len() == mem.len(),
{
    assert(splice(splice(mem, at, a), at + a.len(), b) =~= splice(mem, at, a + b));
}

/// Writing code changes only the bytes it is written over.
pub proof fn lemma_splice_frame(mem: Seq<u8>, at: int, code: Seq<u8>)
    requires
        0 <= at,
        at + code.len() <= mem.len(),
    ensures
        splice(mem, at, code).len() == mem.len(),
        forall|i: int| 0 <= i < code.len() ==> #[trigger] splice(mem, at, code)[at + i] == code[i],
        forall|i: int|
            0 <= i < mem.len() && !(at <= i < at + code.len()) ==> #[trigger] splice(mem, at, code)[i] == mem[i],
{
}

/// Writing the code of an LED is writing the code of its green, then of its
/// red, then of its blue component, one after the other.
pub proof fn lemma_led_is_three_colors(mem: Seq<u8>, at: int, rgb: Rgb)
    requires
        0 <= at,
        at + 288 <= mem.len(),
    ensures
        splice(splice(splice(mem, at, encode_color(rgb.1)), at + 96, encode_color(rgb.0)), at + 192, encode_color(rgb.2))
            == splice(mem, at, encode_led(rgb)),
{
    lemma_encode_led_len(rgb);
    lemma_splice_append(mem, at, encode_color(rgb.1), encode_color(rgb.0));
    lemma_splice_append(mem, at, encode_color(rgb.1) + encode_color(rgb.0), encode_color(rgb.2));
}

/// The code written over the buffer is what is read back before the old tail.
pub proof fn lemma_splice_take(mem: Seq<u8>, at: int, code: Seq<u8>)
    requires
        0 <= at,
        at + code.len() <= mem.len(),
    ensures
        splice(mem, at, code).take(at + code.len()) == mem.take(at) + code,
        splice(mem, at, code).len() == mem.len(),
{
    assert(splice(mem, at, code).take(at + code.len()) =~= mem.take(at) + code);
}

pub proof fn lemma_nops_len(n: nat)
    ensures
        nops(n).len() == 2 * n,
    decreases n,
{
    if n > 0 {
        lemma_nops_len((n - 1) as nat);
    }
}

/// Every bit, whatever its value, is sent by 12 bytes (6 instructions): all
/// bits take the same time.
pub proof fn lemma_encode_bit_len(bit: bool)
    ensures
        encode_bit(bit).len() == 12,
{
    lemma_nops_len(T1H as nat);
    lemma_nops_len(T1L as nat);
    lemma_nops_len(T0L as nat);
}

pub proof fn lemma_encode_bits_len(value: u8, n: nat)
    ensures
        encode_bits(value, n).len() == 12 * n,
    decreases n,
{
    if n > 0 {
        lemma_encode_bits_len(value, (n - 1) as nat);
        lemma_encode_bit_len(bit_sent(value, (n - 1) as u8));
    }
}

/// Every colour component is sent by 96 bytes and every LED by 288 bytes.
pub proof fn lemma_encode_led_len(rgb: Rgb)
    ensures
        encode_color(rgb.0).len() == 96,
        encode_color(rgb.1).len() == 96,
        encode_color(rgb.2).len() == 96,
        encode_led(rgb).len() == 288,
{
    lemma_encode_bits_len(rgb.0, 8);
    lemma_encode_bits_len(rgb.1, 8);
    lemma_encode_bits_len(rgb.2, 8);
}

pub proof fn lemma_encode_leds_len(leds: Seq<Rgb>)
    ensures
        encode_leds(leds).len() == 288 * leds.len(),
    decreases leds.len(),
{
    if leds.len() > 0 {
        lemma_encode_leds_len(leds.drop_last());
        lemma_encode_led_len(leds.last());
    }
}

/// The program for all the LEDs of the badge fills the code buffer exactly.
pub proof fn lemma_program_len(leds: Seq<Rgb>)
    ensures
        program(leds).len() == 12 + 288 * leds.len(),
        leds.len() == LED_COUNT ==> program(leds).len() == BUFFER_SIZE,
{
    lemma_encode_leds_len(leds);
}

/// The immediate of the `li a3,value` that `write_debug` writes, read back
/// from bits 20 to 31 of the instruction, is `value`.
pub proof fn lemma_debug_immediate(value: u8)
    ensures
        ((code_debug(value)[7] as u16) << 4u16) | ((code_debug(value)[6] >> 4u8) as u16) == value as u16,
        code_debug(value)[6] & 0x0fu8 == 0,
{
    let lo = value << 4u8;
    let hi = value >> 4u8;
    assert(code_debug(value)[6] == lo);
    assert(code_debug(value)[7] == hi);
    assert(((hi as u16) << 4u16) | ((lo >> 4u8) as u16) == value as u16 && lo & 0x0fu8 == 0) by (bit_vector)
        requires
            lo == value << 4u8,
            hi == value >> 4u8,
    ;
}

/// The debug code is `li a4,0x20` (addi a4,zero,0x20), `li a3,value`
/// (addi a3,zero,value) and `sw a3,0(a4)`: it stores `value` at
/// `DEBUG_ADDRESS`.
pub proof fn lemma_debug_store(value: u8)
    ensures
        ({
            let code = code_debug(value);
            let w0 = word_at(code, 0);
            let w1 = word_at(code, 4);
            let w2 = word_at(code, 8);
            // addi a4, zero, 0x20
            &&& w0 & 0x7fu32 == 0x13u32 && (w0 >> 12u32) & 7u32 == 0u32
            &&& rd(w0) == 14u32 && rs1(w0) == 0u32 && imm_i(w0) == DEBUG_ADDRESS
            // addi a3, zero, value
            &&& w1 == 0x00000693u32 | ((value as u32) << 20u32)
            &&& w1 & 0x7fu32 == 0x13u32 && (w1 >> 12u32) & 7u32 == 0u32
            &&& rd(w1) == 13u32 && rs1(w1) == 0u32 && imm_i(w1) == value as u32
            // sw a3, 0(a4)
            &&& w2 & 0x7fu32 == 0x23u32 && (w2 >> 12u32) & 7u32 == 2u32
            &&& rs1(w2) == rd(w0) && rs2(w2) == rd(w1) && imm_s(w2) == 0u32
        }),
{
    let code = code_debug(value);
    let lo = value << 4u8;
    let hi = value >> 4u8;
    assert(code[6] == lo && code[7] == hi);
    let w0 = word_at(code, 0);
    let w1 = word_at(code, 4);
    let w2 = word_at(code, 8);
    assert(w0 == 0x02000713u32) by (bit_vector)
        requires
            w0 == (0x13u8 as u32) | ((0x07u8 as u32) << 8u32) | ((0x00u8 as u32) << 16u32) | ((0x02u8 as u32) << 24u32),
    ;
    assert(w2 == 0x00d72023u32) by (bit_vector)
        requires
            w2 == (0x23u8 as u32) | ((0x20u8 as u32) << 8u32) | ((0xd7u8 as u32) << 16u32) | ((0x00u8 as u32) << 24u32),
    ;
    assert(w1 == 0x00000693u32 | ((value as u32) << 20u32)) by (bit_vector)
        requires
            w1 == (0x93u8 as u32) | ((0x06u8 as u32) << 8u32) | ((lo as u32) << 16u32) | ((hi as u32) << 24u32),
            lo == value << 4u8,
            hi == value >> 4u8,
    ;
    assert(w1 & 0x7fu32 == 0x13u32 && (w1 >> 12u32) & 7u32 == 0u32 && (w1 >> 7u32) & 0x1fu32 == 13u32
        && (w1 >> 15u32) & 0x1fu32 == 0u32 && w1 >> 20u32 == value as u32) by (bit_vector)
        requires
            w1 == 0x00000693u32 | ((value as u32) << 20u32),
    ;
    assert(w0 & 0x7fu32 == 0x13u32 && (w0 >> 12u32) & 7u32 == 0u32 && (w0 >> 7u32) & 0x1fu32 == 14u32
        && (w0 >> 15u32) & 0x1fu32 == 0u32 && w0 >> 20u32 == 0x20u32) by (bit_vector)
        requires
            w0 == 0x02000713u32,
    ;
    assert(w2 & 0x7fu32 == 0x23u32 && (w2 >> 12u32) & 7u32 == 2u32 && (w2 >> 15u32) & 0x1fu32 == 14u32
        && (w2 >> 20u32) & 0x1fu32 == 13u32 && (((w2 >> 25u32) << 5u32) | ((w2 >> 7u32) & 0x1fu32)) == 0u32) by (bit_vector)
        requires
            w2 == 0x00d72023u32,
    ;
}

pub proof fn lemma_decode_encode_bit(bit: bool)
    ensures
        decode_bit(encode_bit(bit)) == bit,
{
    reveal_with_fuel(nops, 3);
    if bit {
        assert(encode_bit(bit)[2] == 0x01u8);
    } else {
        assert(encode_bit(bit)[2] == 0x90u8);
    }
}

/// The `k`-th 12 bytes of the code of a value send its `k`-th bit.
pub proof fn lemma_encode_bits_chunk(value: u8, n: nat, k: int)
    requires
        0 <= k < n,
    ensures
        encode_bits(value, n).subrange(12 * k, 12 * k + 12) == encode_bit(bit_sent(value, k as u8)),
    decreases n,
{
    let prev = encode_bits(value, (n - 1) as nat);
    lemma_encode_bits_len(value, (n - 1) as nat);
    lemma_encode_bit_len(bit_sent(value, (n - 1) as u8));
    if k < n - 1 {
        lemma_encode_bits_chunk(value, (n - 1) as nat, k);
        assert(encode_bits(value, n).subrange(12 * k, 12 * k + 12) =~= prev.subrange(12 * k, 12 * k + 12));
    } else {
        assert(encode_bits(value, n).subrange(12 * k, 12 * k + 12) =~= encode_bit(bit_sent(value, k as u8)));
    }
}

proof fn lemma_shift_step(v: u8, s: u8)
    requires
        s < 8,
    ensures
        ((v >> ((s + 1) as u8)) << 1u8) | (if (v >> s) & 1u8 == 1u8 {
            1u8
        } else {
            0u8
        }) == v >> s,
{
    assert(s < 8 ==> ((v >> ((s + 1) as u8)) << 1u8) | (if (v >> s) & 1u8 == 1u8 {
        1u8
    } else {
        0u8
    }) == v >> s) by (bit_vector);
}

/// Reading back the first `n` bits of the code of `value` gives its `n` most
/// significant bits.
pub proof fn lemma_decode_bits(value: u8, n: nat)
    requires
        n <= 8,
    ensures
        decode_bits(encode_color(value), n) == value >> ((8 - n) as u8),
    decreases n,
{
    if n == 0 {
        assert(value >> 8u8 == 0u8) by (bit_vector);
    } else {
        lemma_decode_bits(value, (n - 1) as nat);
        lemma_encode_bits_chunk(value, 8, n - 1);
        lemma_decode_encode_bit(bit_sent(value, (n - 1) as u8));
        lemma_shift_step(value, (8 - n) as u8);
    }
}

/// Reading back the code of a colour component gives the component.
pub proof fn lemma_decode_encode_color(value: u8)
    ensures
        decode_color(encode_color(value)) == value,
{
    lemma_decode_bits(value, 8);
    assert(value >> 0u8 == value) by (bit_vector);
}

/// Reading back the code of an LED gives its colour.
pub proof fn lemma_decode_encode_led(rgb: Rgb)
    ensures
        decode_led(encode_led(rgb)) == rgb,
{
    lemma_encode_led_len(rgb);
    let code = encode_led(rgb);
    assert(code.subrange(0, 96) =~= encode_color(rgb.1));
    assert(code.subrange(96, 192) =~= encode_color(rgb.0));
    assert(code.subrange(192, 288) =~= encode_color(rgb.2));
    lemma_decode_encode_color(rgb.0);
    lemma_decode_encode_color(rgb.1);
    lemma_decode_encode_color(rgb.2);
}

/// The `k`-th 288 bytes of the code of a sequence of LEDs send the `k`-th LED.
pub proof fn lemma_encode_leds_chunk(leds: Seq<Rgb>, k: int)
    requires
        0 <= k < leds.len(),
    ensures
        encode_leds(leds).subrange(288 * k, 288 * k + 288) == encode_led(leds[k]),
    decreases leds.len(),
{
    let prev = encode_leds(leds.drop_last());
    lemma_encode_leds_len(leds.drop_last());
    lemma_encode_led_len(leds.last());
    if k < leds.len() - 1 {
        lemma_encode_leds_chunk(leds.drop_last(), k);
        assert(encode_leds(leds).subrange(288 * k, 288 * k + 288) =~= prev.subrange(288 * k, 288 * k + 288));
    } else {
        assert(encode_leds(leds).subrange(288 * k, 288 * k + 288) =~= encode_led(leds.last()));
    }
}

/// Reading back the program built for some LED colours gives these colours:
/// no two colourings share a program, and each LED gets its own colour.
pub proof fn lemma_decode_program(leds: Seq<Rgb>)
    ensures
        decode_program(program(leds)) == leds,
{
    let code = program(leds);
    lemma_program_len(leds);
    lemma_encode_leds_len(leds);
    assert((code.len() - 12) / 288 == leds.len()) by (nonlinear_arith)
        requires
            code.len() == 12 + 288 * leds.len(),
    ;
    assert forall|k: int| 0 <= k < leds.len() implies #[trigger] decode_program(code)[k] == leds[k] by {
        assert(0 <= 288 * k) by (nonlinear_arith)
            requires
                0 <= k,
        ;
        assert(288 * k + 288 <= 288 * leds.len()) by (nonlinear_arith)
            requires
                k < leds.len(),
        ;
        lemma_encode_leds_chunk(leds, k);
        assert(code.subrange(10 + 288 * k, 10 + 288 * k + 288) =~= encode_leds(leds).subrange(288 * k, 288 * k + 288));
        lemma_decode_encode_led(leds[k]);
    }
    assert(decode_program(code) =~= leds);
}

} // verus!
