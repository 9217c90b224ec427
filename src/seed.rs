use vstd::prelude::*;

verus! {

/// Threshold that a uniform draw in `[0, 1)` must exceed for a cell to start
/// active, in whole units.
pub const INITIAL_FILL: u64 = 10;

/// Denominator of a uniform draw: the draw is a numerator over `2^23`.
pub const DRAW_SCALE: u64 = 0x80_0000;

/// The value of bytes read least significant first.
pub open spec fn le_value(s: Seq<u8>) -> int
    decreases s.len(),
{
    if s.len() == 0 {
        0
    } else {
        s[0] as int + 256 * le_value(s.drop_first())
    }
}

/// The 23 low bits of a generator output: the draw is this over `2^23`.
pub open spec fn draw_numerator(bits: u32) -> u32 {
    bits & 0x7f_ffff
}

/// Multiplier of the PCG32 generator's linear congruential step.
pub const PCG_MULTIPLIER: u64 = 6364136223846793005;

/// `x` rotated right by `r` bits.
pub open spec fn rotate_right_u32(x: u32, r: u32) -> u32 {
    let k = r % 32;
    if k == 0 {
        x
    } else {
        ((x >> k) | (x << ((32 - k) as u32))) as u32
    }
}

/// The XSH RR output of the PCG32 generator for a state.
pub open spec fn pcg32_output(state: u64) -> u32 {
    rotate_right_u32((((state >> 18u64) ^ state) >> 27u64) as u32, (state >> 59u64) as u32)
}

/// The step of the PCG32 generator from `(state, inc)`: the next state,
/// `state * PCG_MULTIPLIER + inc` modulo `2^64`, and the output of the
/// current state.
pub open spec fn pcg32_next(state: u64, inc: u64) -> (u64, u32) {
    (
        ((state as int * PCG_MULTIPLIER as int + inc as int) % 0x1_0000_0000_0000_0000) as u64,
        pcg32_output(state),
    )
}

/// `s` is the pair of words read from the sixteen bytes `b`, eight bytes
/// each, both least significant first or both most significant first.
pub open spec fn seed_words_of(b: Seq<u8>, s: (u64, u64)) -> bool {
    &&& b.len() == 16
    &&& {
        ||| s.0 as int == le_value(b.subrange(0, 8)) && s.1 as int == le_value(b.subrange(8, 16))
        ||| s.0 as int == le_value(b.subrange(0, 8).reverse()) && s.1 as int == le_value(
            b.subrange(8, 16).reverse(),
        )
    }
}

/// Relies on getrandom::getrandom: on success it fills the buffer with bytes
/// from the operating system's entropy source.
#[verifier::external_body]
fn entropy_bytes() -> (r: Option<Vec<u8>>)
    ensures
        r matches Some(v) ==> v@.len() == 16,
{
    let mut buf = [0u8; 16];
    match getrandom::getrandom(&mut buf) {
        Ok(()) => Some(buf.to_vec()),
        Err(_) => None,
    }
}

/// Relies on byteorder's NativeEndian::read_u64_into: two words from
/// sixteen bytes, eight each, both in the machine's byte order (little- or
/// big-endian). It panics unless the bytes are exactly twice eight.
#[verifier::external_body]
fn read_native_words(b: &[u8]) -> (r: (u64, u64))
    requires
        b@.len() == 16,
    ensures
        seed_words_of(b@, r),
{
    let mut words = [0u64; 2];
    <byteorder::NativeEndian as byteorder::ByteOrder>::read_u64_into(b, &mut words);
    (words[0], words[1])
}

/// Relies on randomize::PCG32 built from `(state, inc)` exactly, and on its
/// `next_u32`: returns the state after the step and the output.
#[verifier::external_body]
pub(crate) fn pcg32_step(state: u64, inc: u64) -> (r: (u64, u32))
    ensures
        r == pcg32_next(state, inc),
{
    let mut g = randomize::PCG32::from((state, inc));
    let out = g.next_u32();
    (g.state, out)
}

/// The two words of a generator seed read from sixteen bytes, eight bytes
/// each, in the machine's byte order.
pub fn seed_from_bytes(bytes: &Vec<u8>) -> (r: (u64, u64))
    requires
        bytes@.len() == 16,
    ensures
        seed_words_of(bytes@, r),
{
    read_native_words(bytes.as_slice())
}

/// A seed for the generator, two words from the operating system's entropy
/// source; `None` when that source fails.
pub fn generate_seed() -> (r: Option<(u64, u64)>)
    ensures
        r is Some ==> exists|b: Seq<u8>| #[trigger] seed_words_of(b, r->0),
{
    match entropy_bytes() {
        Some(bytes) => {
            let s = seed_from_bytes(&bytes);
            let r = Some(s);
            assert(seed_words_of(bytes@, r->0));
            r
        },
        None => None,
    }
}

/// Whether the uniform draw `draw_numerator(bits) / 2^23`, which lies in
/// `[0, 1)`, exceeds `INITIAL_FILL`.
pub fn draw_exceeds_fill(bits: u32) -> (r: bool)
    ensures
        r == (draw_numerator(bits) as int > INITIAL_FILL * DRAW_SCALE),
        !r,
{
    let numerator: u32 = bits & 0x7f_ffff;
    assert(bits & 0x7f_ffff <= 0x7f_ffff) by (bit_vector);
    (numerator as u64) > INITIAL_FILL * DRAW_SCALE
}

} // verus!
