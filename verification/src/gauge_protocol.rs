//! The serial wire format shared by the desktop application and the gauge
//! firmware.
//!
//! Every gauge update is one big-endian 16-bit word:
//!
//! * bit 15      – the gauge is a 5 V gauge (no 3/5 down-scaling on a 5 V supply),
//! * bits 14..10 – the gauge index (0..=31),
//! * bits 9..0   – the PWM level (0..=1023).
use vstd::prelude::*;

verus! {

/// Largest PWM level a word can carry.
pub const PWM_MAX: u16 = 1023;

/// Gauge index that, together with the largest PWM level, asks the firmware
/// to reboot into its USB bootloader.
pub const BOOTLOADER_INDEX: u8 = 31;

/// A decoded gauge word.
#[derive(Clone, Copy, Debug, PartialEq, Eq, Structural)]
pub struct GaugeWord {
    pub five_volt: bool,
    pub index: u8,
    pub value: u16,
}

pub open spec fn min_int(a: int, b: int) -> int {
    if a <= b { a } else { b }
}

/// The numeric value of the word that carries `five_volt`, gauge `index`
/// (taken modulo 32) and PWM level `pwm` (already at most 1023).
pub open spec fn word_of(five_volt: bool, index: int, pwm: int) -> int {
    (if five_volt { 32768int } else { 0int }) + (index % 32) * 1024 + pwm
}

/// What the firmware reads out of a raw word.
pub open spec fn decode_spec(raw: u16) -> GaugeWord {
    GaugeWord {
        five_volt: raw >= 32768,
        index: ((raw as int / 1024) % 32) as u8,
        value: (raw as int % 1024) as u16,
    }
}

/// The two big-endian bytes of a word.
pub open spec fn be_bytes(w: u16) -> Seq<u8> {
    seq![(w as int / 256) as u8, (w as int % 256) as u8]
}

/// The word a frame carries for gauge slot `i`: the slot's PWM level capped at
/// 1023, or 0 when no level is given for the slot.
pub open spec fn frame_word(pwms: Seq<u16>, five_volt: bool, i: int) -> u16 {
    let pwm = if i < pwms.len() { min_int(pwms[i] as int, PWM_MAX as int) } else { 0 };
    word_of(five_volt, i, pwm) as u16
}

/// Byte `k` of a frame of `count` gauge words.
pub open spec fn frame_byte(pwms: Seq<u16>, five_volt: bool, k: int) -> u8 {
    be_bytes(frame_word(pwms, five_volt, k / 2))[k % 2]
}

/// The bytes of a frame of `count` gauge words.
pub open spec fn frame_spec(pwms: Seq<u16>, five_volt: bool, count: nat) -> Seq<u8> {
    Seq::new(count * 2, |k: int| frame_byte(pwms, five_volt, k))
}

/// The word stored big-endian at position `i` of a byte sequence.
pub open spec fn word_at(bytes: Seq<u8>, i: int) -> u16 {
    (bytes[2 * i] as int * 256 + bytes[2 * i + 1] as int) as u16
}

/// What the firmware decodes from the first `len` received bytes: one word per
/// complete pair of bytes, a trailing odd byte being ignored.
pub open spec fn decode_frame_spec(bytes: Seq<u8>) -> Seq<GaugeWord> {
    Seq::new(bytes.len() / 2, |i: int| decode_spec(word_at(bytes, i)))
}

/// The big-endian bytes of a sequence of raw words.
pub open spec fn words_bytes_spec(words: Seq<u16>) -> Seq<u8> {
    Seq::new(words.len() * 2, |k: int| be_bytes(words[k / 2])[k % 2])
}

proof fn lemma_word_bits(v: u16, j: u16, p: u16, w: u16)
    requires
        v <= 1,
        j < 32,
        p < 1024,
        w == v * 32768 + j * 1024 + p,
    ensures
        w == (v << 15u16) | (j << 10u16) | p,
        (w as int / 1024) % 32 == j as int,
        w as int % 1024 == p as int,
        (w >= 32768) == (v == 1),
{
    assert(w == (v << 15u16) | (j << 10u16) | p) by (bit_vector)
        requires
            v <= 1,
            j < 32,
            p < 1024,
            w == v * 32768 + j * 1024 + p,
    ;
    assert((w / 1024) % 32 == j && w % 1024 == p && ((w >= 32768) == (v == 1))) by (bit_vector)
        requires
            v <= 1,
            j < 32,
            p < 1024,
            w == v * 32768 + j * 1024 + p,
    ;
}

/// Builds the word for one gauge. The index is taken modulo 32 and the level is
/// capped at 1023.
pub fn encode_gauge_word(five_volt: bool, index: usize, pwm: u16) -> (w: u16)
    ensures
        w as int == word_of(five_volt, index as int, min_int(pwm as int, PWM_MAX as int)),
{
    let v: u16 = if five_volt { 1 } else { 0 };
    let j: u16 = (index % 32) as u16;
    let p: u16 = if pwm < PWM_MAX { pwm } else { PWM_MAX };
    let w: u16 = v * 32768 + j * 1024 + p;
    proof {
        lemma_word_bits(v, j, p, w);
    }
    (v << 15u16) | (j << 10u16) | p
}

/// Splits a raw word into its voltage flag, gauge index and PWM level.
pub fn decode_gauge_word(raw: u16) -> (g: GaugeWord)
    ensures
        g == decode_spec(raw),
{
    let five_volt = (raw & 0x8000) != 0;
    let index = ((raw >> 10u16) & 0x1F) as u8;
    let value = raw & 0x3FF;
    assert(((raw & 0x8000) != 0) == (raw >= 32768)) by (bit_vector);
    assert(((raw >> 10u16) & 0x1F) == (raw / 1024) % 32) by (bit_vector);
    assert((raw & 0x3FF) == raw % 1024) by (bit_vector);
    GaugeWord { five_volt, index, value }
}

proof fn lemma_be_bytes_word(w: u16)
    ensures
        (w as int / 256) as u8 as int * 256 + (w as int % 256) as u8 as int == w as int,
{
}

/// Serialises gauge levels into the frame the firmware expects: one word per
/// slot `0..count`, slot `i` carrying `pwms[i]` capped at 1023 (0 when `pwms`
/// is shorter than `count`), the index `i` modulo 32 and the given voltage flag.
pub fn encode_frame(pwms: &Vec<u16>, five_volt: bool, count: usize) -> (bytes: Vec<u8>)
    requires
        count * 2 <= usize::MAX,
    ensures
        bytes@ == frame_spec(pwms@, five_volt, count as nat),
{
    let mut bytes: Vec<u8> = Vec::new();
    let mut i: usize = 0;
    while i < count
        invariant
            i <= count,
            count * 2 <= usize::MAX,
            bytes@.len() == 2 * i,
            forall|k: int| 0 <= k < 2 * i ==> bytes@[k] == #[trigger] frame_byte(pwms@, five_volt, k),
        decreases count - i,
    {
        let pwm: u16 = if i < pwms.len() { pwms[i] } else { 0 };
        let w = encode_gauge_word(five_volt, i, pwm);
        proof {
            assert(w == frame_word(pwms@, five_volt, i as int));
            assert((2 * i as int) / 2 == i as int);
            assert((2 * i as int + 1) / 2 == i as int);
        }
        bytes.push((w >> 8u16) as u8);
        bytes.push((w & 0xFF) as u8);
        proof {
            assert((w >> 8u16) as u8 == (w as int / 256) as u8) by (bit_vector);
            assert((w & 0xFF) as u8 == (w as int % 256) as u8) by (bit_vector);
        }
        i = i + 1;
    }
    assert(bytes@ =~= frame_spec(pwms@, five_volt, count as nat));
    bytes
}

/// Serialises raw words big-endian, in order.
pub fn words_to_bytes(words: &Vec<u16>) -> (bytes: Vec<u8>)
    requires
        words@.len() * 2 <= usize::MAX,
    ensures
        bytes@ == words_bytes_spec(words@),
{
    let mut bytes: Vec<u8> = Vec::new();
    let mut i: usize = 0;
    while i < words.len()
        invariant
            i <= words@.len(),
            words@.len() * 2 <= usize::MAX,
            bytes@.len() == 2 * i,
            forall|k: int|
                0 <= k < 2 * i ==> bytes@[k] == #[trigger] be_bytes(words@[k / 2])[k % 2],
        decreases words@.len() - i,
    {
        let w = words[i];
        bytes.push((w >> 8u16) as u8);
        bytes.push((w & 0xFF) as u8);
        proof {
            assert((w >> 8u16) as u8 == (w as int / 256) as u8) by (bit_vector);
            assert((w & 0xFF) as u8 == (w as int % 256) as u8) by (bit_vector);
            assert((2 * i as int) / 2 == i as int);
            assert((2 * i as int + 1) / 2 == i as int);
        }
        i = i + 1;
    }
    assert(bytes@ =~= words_bytes_spec(words@));
    bytes
}

/// Decodes every complete pair of bytes of `bytes` into a gauge word, in order.
pub fn decode_frame(bytes: &[u8]) -> (words: Vec<GaugeWord>)
    ensures
        words@ == decode_frame_spec(bytes@),
{
    let n = bytes.len() / 2;
    assert(bytes@.len() == bytes.len());
    let mut words: Vec<GaugeWord> = Vec::new();
    let mut i: usize = 0;
    while i < n
        invariant
            n == bytes@.len() / 2,
            2 * n <= bytes@.len(),
            bytes@.len() <= usize::MAX,
            i <= n,
            words@.len() == i,
            forall|k: int| 0 <= k < i ==> words@[k] == #[trigger] decode_spec(word_at(bytes@, k)),
        decreases n - i,
    {
        let hi = bytes[2 * i] as u16;
        let lo = bytes[2 * i + 1] as u16;
        let raw: u16 = hi * 256 + lo;
        words.push(decode_gauge_word(raw));
        i = i + 1;
    }
    assert(words@ =~= decode_frame_spec(bytes@));
    words
}

/// The frame sent when the application quits: level 0 on gauge indices 0..=7,
/// 3 V flag.
pub fn reset_frame() -> (bytes: Vec<u8>)
    ensures
        bytes@ == frame_spec(Seq::<u16>::empty(), false, 8),
{
    let none: Vec<u16> = Vec::new();
    encode_frame(&none, false, 8)
}

/// The two bytes that ask the firmware to enter its bootloader.
pub fn bootloader_frame() -> (bytes: Vec<u8>)
    ensures
        bytes@ == seq![0x7Fu8, 0xFFu8],
{
    let mut bytes: Vec<u8> = Vec::new();
    bytes.push(0x7F);
    bytes.push(0xFF);
    bytes
}

/// A frame written by `encode_frame` decodes, word by word, to the slot index
/// (modulo 32), the capped level (0 for slots without a level) and the
/// voltage flag it was written with.
pub proof fn law_frame_roundtrip(pwms: Seq<u16>, five_volt: bool, count: nat)
    ensures
        decode_frame_spec(frame_spec(pwms, five_volt, count)).len() == count,
        forall|i: int|
            0 <= i < count ==> #[trigger] decode_frame_spec(frame_spec(pwms, five_volt, count))[i]
                == (GaugeWord {
                five_volt,
                index: (i % 32) as u8,
                value: (if i < pwms.len() { min_int(pwms[i] as int, 1023) } else { 0 }) as u16,
            }),
{
    let bytes = frame_spec(pwms, five_volt, count);
    assert forall|i: int| 0 <= i < count implies #[trigger] decode_frame_spec(bytes)[i]
        == (GaugeWord {
        five_volt,
        index: (i % 32) as u8,
        value: (if i < pwms.len() { min_int(pwms[i] as int, 1023) } else { 0 }) as u16,
    }) by {
        let p: int = if i < pwms.len() { min_int(pwms[i] as int, 1023) } else { 0 };
        let w = frame_word(pwms, five_volt, i);
        assert((2 * i) / 2 == i);
        assert((2 * i + 1) / 2 == i);
        assert((2 * i) % 2 == 0);
        assert((2 * i + 1) % 2 == 1);
        assert(bytes[2 * i] == (w as int / 256) as u8);
        assert(bytes[2 * i + 1] == (w as int % 256) as u8);
        lemma_be_bytes_word(w);
        assert(word_at(bytes, i) == w);
        let vv: u16 = if five_volt { 1 } else { 0 };
        let jj: u16 = (i % 32) as u16;
        let pp: u16 = p as u16;
        assert(w == vv * 32768 + jj * 1024 + pp);
        lemma_word_bits(vv, jj, pp, w);
    }
}

/// Raw words serialised with `words_to_bytes` decode to exactly the words'
/// fields, in order.
pub proof fn law_words_roundtrip(words: Seq<u16>)
    ensures
        decode_frame_spec(words_bytes_spec(words)) == words.map_values(|w: u16| decode_spec(w)),
{
    let bytes = words_bytes_spec(words);
    assert forall|i: int| 0 <= i < words.len() implies word_at(bytes, i) == words[i] by {
        assert((2 * i) / 2 == i);
        assert((2 * i + 1) / 2 == i);
        assert((2 * i) % 2 == 0);
        assert((2 * i + 1) % 2 == 1);
        lemma_be_bytes_word(words[i]);
    }
    assert(decode_frame_spec(bytes) =~= words.map_values(|w: u16| decode_spec(w)));
}

/// The quit frame sets gauges 0..=7 to level 0 with the 3 V flag.
pub proof fn law_reset_frame_zeroes_gauges()
    ensures
        decode_frame_spec(frame_spec(Seq::<u16>::empty(), false, 8)).len() == 8,
        forall|i: int|
            0 <= i < 8 ==> #[trigger] decode_frame_spec(frame_spec(Seq::<u16>::empty(), false, 8))[i]
                == (GaugeWord { five_volt: false, index: i as u8, value: 0 }),
{
    law_frame_roundtrip(Seq::<u16>::empty(), false, 8);
}

/// The bootloader request decodes to gauge index 31 at the largest level.
pub proof fn law_bootloader_frame_decodes()
    ensures
        decode_frame_spec(seq![0x7Fu8, 0xFFu8]) == seq![
            GaugeWord { five_volt: false, index: BOOTLOADER_INDEX, value: PWM_MAX },
        ],
{
    let bytes = seq![0x7Fu8, 0xFFu8];
    assert(word_at(bytes, 0) == 0x7FFFu16);
    assert(decode_frame_spec(bytes) =~= seq![
        GaugeWord { five_volt: false, index: BOOTLOADER_INDEX, value: PWM_MAX },
    ]);
}

} // verus!
