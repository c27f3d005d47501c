//! The encoder side: planning the 26 output pulses for a payload, and the
//! tunable timing budgets shared by the driving loops.

use vstd::prelude::*;

use crate::codec::decode_spec;
use crate::codec::encode_spec;
use crate::codec::lemma_round_trip;
use crate::codec::Error;
use crate::codec::WiegandData;
use crate::decoder::extend_word;
use crate::decoder::shift_in;
use crate::decoder::word_of;

verus! {

/// The tunable durations, in microseconds, of the two decoder timeouts and
/// of the encoder's output timing. The defaults match observed reader
/// timing: pulses end well within a millisecond, bits arrive a few
/// milliseconds apart.
#[derive(Debug, Copy, Clone, PartialEq, Eq, Structural)]
pub struct Config {
    /// How long a bit's low pulse may take to end.
    pub pulse_end_timeout_us: u32,
    /// How long the next pulse may take to begin after a bit completed.
    pub bit_start_timeout_us: u32,
    /// How long the encoder holds a line active for each output pulse.
    pub pulse_width_us: u32,
    /// How long the encoder rests between output pulses.
    pub bit_gap_us: u32,
}

impl Default for Config {
    /// The documented typical values.
    fn default() -> (c: Config)
        ensures
            c == (Config {
                pulse_end_timeout_us: 1000u32,
                bit_start_timeout_us: 4000u32,
                pulse_width_us: 40u32,
                bit_gap_us: 2000u32,
            }),
    {
        Config {
            pulse_end_timeout_us: 1000,
            bit_start_timeout_us: 4000,
            pulse_width_us: 40,
            bit_gap_us: 2000,
        }
    }
}

/// Whether the pulse at position `i` (most significant bit first) of the
/// wire word `w` belongs on the second line, which encodes a 1.
pub open spec fn pulse_line_one(w: u32, i: int) -> bool {
    (w >> ((25 - i) as u32)) & 1 == 1
}

/// Plans the 26 output pulses for a payload, most significant bit of the
/// encoded wire word first: `true` marks a pulse on the second line (a 1),
/// `false` a pulse on the first line (a 0).
pub fn encode_pulses(data: WiegandData) -> (pulses: Vec<bool>)
    ensures
        pulses@.len() == 26,
        forall|i: int| 0 <= i < 26 ==> pulses@[i] == pulse_line_one(encode_spec(data), i),
{
    let word: u32 = u32::from(data);
    let mut pulses: Vec<bool> = Vec::new();
    for bit in 0..26u32
        invariant
            word == encode_spec(data),
            pulses@.len() == bit,
            forall|i: int| 0 <= i < bit ==> pulses@[i] == pulse_line_one(word, i),
    {
        pulses.push((word >> (25 - bit)) & 1 == 1);
    }
    pulses
}

/// The pulse plan of a wire word as a sequence: position `i` is `true` when
/// the pulse at `i` (most significant bit first) goes on the second line.
pub open spec fn pulse_seq(w: u32) -> Seq<bool> {
    Seq::new(26, |i: int| pulse_line_one(w, i))
}

/// Shifting one more bit in after a run of bits is the same as appending
/// that bit to the run.
proof fn lemma_extend_push(v: u32, s: Seq<bool>, b: bool)
    ensures
        extend_word(v, s.push(b)) == shift_in(extend_word(v, s), b),
    decreases s.len(),
{
    if s.len() == 0 {
        assert(s.push(b).drop_first() =~= Seq::<bool>::empty());
        assert(extend_word(shift_in(v, b), s.push(b).drop_first()) == shift_in(v, b));
    } else {
        assert(s.push(b)[0] == s[0]);
        assert(s.push(b).drop_first() =~= s.drop_first().push(b));
        lemma_extend_push(shift_in(v, s[0]), s.drop_first(), b);
    }
}

/// The word assembled from the first `j` planned pulses is the top `j` bits
/// of the wire word.
proof fn lemma_pulse_word_prefix(w: u32, j: int)
    requires
        w < 0x4000000,
        0 <= j <= 26,
    ensures
        extend_word(0, pulse_seq(w).take(j)) == w >> ((26 - j) as u32),
    decreases j,
{
    if j == 0 {
        assert(pulse_seq(w).take(0) =~= Seq::<bool>::empty());
        assert(w < 0x4000000 ==> w >> 26u32 == 0) by (bit_vector);
    } else {
        lemma_pulse_word_prefix(w, j - 1);
        let s = pulse_seq(w);
        assert(s.take(j) =~= s.take(j - 1).push(s[j - 1]));
        lemma_extend_push(0, s.take(j - 1), s[j - 1]);
        let t: u32 = (27 - j) as u32;
        let bv: u32 = if s[j - 1] {
            1u32
        } else {
            0u32
        };
        assert((w >> ((t - 1) as u32)) & 1 == 0 || (w >> ((t - 1) as u32)) & 1 == 1)
            by (bit_vector);
        assert(1 <= t <= 26 ==> ((w >> t) << 1) | ((w >> ((t - 1) as u32)) & 1) == w >> ((t
            - 1) as u32)) by (bit_vector);
        assert(s[j - 1] == pulse_line_one(w, j - 1));
        assert(bv == (w >> ((t - 1) as u32)) & 1);
        assert(shift_in(w >> t, s[j - 1]) == w >> ((t - 1) as u32));
    }
}

/// Every encoded wire word uses only its 26 low-order bits.
pub proof fn lemma_encode_in_range(d: WiegandData)
    ensures
        encode_spec(d) < 0x4000000,
{
    let id: u16 = d.id;
    let fac: u8 = d.facility;
    let p: u32 = ((id as u32) << 1) | ((fac as u32) << 17);
    assert(forall|e0: u32, e25: u32|
        (e0 == 0 || e0 == 1) && (e25 == 0 || e25 == 0x2000000) ==> #[trigger] (p | e0 | e25)
            < 0x4000000) by (bit_vector)
        requires
            p == ((id as u32) << 1) | ((fac as u32) << 17),
    ;
}

/// The pulses the encoder plans, observed in order and fed back through the
/// bit accumulation, assemble exactly the encoded wire word, and that word
/// decodes back to the payload: the encoder and the decoder agree end to
/// end.
pub proof fn lemma_pulses_assemble(d: WiegandData)
    ensures
        word_of(pulse_seq(encode_spec(d))) == encode_spec(d),
        decode_spec(word_of(pulse_seq(encode_spec(d)))) == Ok::<WiegandData, Error>(d),
{
    let w = encode_spec(d);
    lemma_encode_in_range(d);
    lemma_pulse_word_prefix(w, 26);
    assert(pulse_seq(w).take(26) =~= pulse_seq(w));
    assert(w < 0x4000000 ==> w >> 0u32 == w) by (bit_vector);
    lemma_round_trip(d);
}

} // verus!
