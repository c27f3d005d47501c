//! Pure conversions between the 26-bit wire word and the structured payload,
//! including parity computation and validation.

use vstd::prelude::*;

verus! {

/// Failure modes of frame decoding.
///
/// `Parity` means a fully assembled word failed the parity relation.
/// `TimedOutUp(w)` means no new pulse began within budget; `TimedOutDown(w)`
/// means a pulse never ended within budget; both carry the partially
/// accumulated word for diagnostics.
#[derive(Debug, Copy, Clone, PartialEq, Eq, Structural)]
pub enum Error {
    Parity,
    TimedOut,
    TimedOutUp(u32),
    TimedOutDown(u32),
    _Extensible,
}

/// The payload of one frame: an 8-bit facility code and a 16-bit id.
#[derive(Debug, Copy, Clone, PartialEq, Eq, Structural)]
pub struct WiegandData {
    pub facility: u8,
    pub id: u16,
}

/// The number of set bits among the `n` least significant bits of `x`.
pub open spec fn ones(x: u32, n: nat) -> nat
    decreases n,
{
    if n == 0 {
        0
    } else {
        (if x & 1 == 1 {
            1nat
        } else {
            0nat
        }) + ones(x >> 1, (n - 1) as nat)
    }
}

/// The id field: bits 1..=16 of the wire word.
pub open spec fn id_bits(w: u32) -> u32 {
    (w >> 1) & 0xFFFF
}

/// The facility field: bits 17..=24 of the wire word.
pub open spec fn facility_bits(w: u32) -> u32 {
    (w >> 17) & 0xFF
}

/// The bottom parity group: bits 1..=12 of the wire word.
pub open spec fn bottom_bits(w: u32) -> u32 {
    (w >> 1) & 0xFFF
}

/// The top parity group: bits 13..=24 of the wire word.
pub open spec fn top_bits(w: u32) -> u32 {
    (w >> 13) & 0xFFF
}

/// Bit 25 of the wire word: the even-parity bit over the top group.
pub open spec fn top_parity_bit(w: u32) -> bool {
    (w >> 25) & 1 == 1
}

/// Bit 0 of the wire word: the odd-parity bit over the bottom group.
pub open spec fn low_parity_bit(w: u32) -> bool {
    w & 1 == 1
}

/// The parity relation a well-formed wire word satisfies: bit 25 is set
/// exactly when the top group has an odd number of set bits, and bit 0 is
/// set exactly when the bottom group has an even number of set bits.
pub open spec fn parity_holds(w: u32) -> bool {
    &&& (ones(top_bits(w), 31) % 2 == 1) == top_parity_bit(w)
    &&& (ones(bottom_bits(w), 31) % 2 == 0) == low_parity_bit(w)
}

/// What decoding a wire word yields: the payload when the parity relation
/// holds, and `Error::Parity` otherwise.
pub open spec fn decode_spec(w: u32) -> Result<WiegandData, Error> {
    if parity_holds(w) {
        Ok(WiegandData { facility: facility_bits(w) as u8, id: id_bits(w) as u16 })
    } else {
        Err(Error::Parity)
    }
}

/// The payload fields placed at their positions, parity bits still clear.
pub open spec fn payload_bits(d: WiegandData) -> u32 {
    ((d.id as u32) << 1) | ((d.facility as u32) << 17)
}

/// The wire word encoding a payload: the payload fields with bit 0 and
/// bit 25 stamped so that the parity relation holds.
pub open spec fn encode_spec(d: WiegandData) -> u32 {
    payload_bits(d) | (if ones(bottom_bits(payload_bits(d)), 31) % 2 == 0 {
        1u32
    } else {
        0u32
    }) | (if ones(top_bits(payload_bits(d)), 31) % 2 == 1 {
        0x2000000u32
    } else {
        0u32
    })
}

/// Whether `data` is odd.
pub fn is_odd(data: u8) -> (r: bool)
    ensures
        r == (data % 2 == 1),
{
    (data % 2) != 0
}

/// The number of set bits among the 31 least significant bits of `input`.
pub fn count_ones(input: u32) -> (r: u8)
    ensures
        r as nat == ones(input, 31),
{
    let mut ones_count: u8 = 0;
    let mut data_out: u32 = input;
    for bit in 0..31u32
        invariant
            ones_count as nat + ones(data_out, (31 - bit) as nat) == ones(input, 31),
            ones_count <= bit,
    {
        if data_out & 1 == 1 {
            ones_count = ones_count + 1;
        }
        data_out >>= 1;
    }
    ones_count
}

impl WiegandData {
    /// Decodes a 26-bit wire word: validates the parity relation and, when it
    /// holds, extracts the facility and id fields.
    pub fn try_from(item: u32) -> (r: Result<WiegandData, Error>)
        ensures
            r == decode_spec(item),
    {
        let id: u16 = ((item >> 1) & 0xFFFF) as u16;
        let facility: u8 = ((item >> 17) & 0xFF) as u8;

        let even_bit: bool = (item >> 25) & 1 == 1;
        let odd_bit: bool = item & 1 == 1;

        let bottom: u32 = (item >> 1) & 0xFFF;
        let top: u32 = (item >> 13) & 0xFFF;

        let valid: bool = (is_odd(count_ones(top)) == even_bit) && (!is_odd(count_ones(bottom))
            == odd_bit);

        if valid {
            Ok(WiegandData { facility, id })
        } else {
            Err(Error::Parity)
        }
    }
}

impl From<WiegandData> for u32 {
    /// Encodes a payload into its 26-bit wire word, stamping both parity bits.
    fn from(item: WiegandData) -> (r: u32) {
        let base: u32 = ((item.id as u32) << 1) | ((item.facility as u32) << 17);

        let bottom: u32 = (base >> 1) & 0xFFF;
        let top: u32 = (base >> 13) & 0xFFF;

        let low_bit: u32 = if !is_odd(count_ones(bottom)) {
            1u32
        } else {
            0u32
        };
        let high_bit: u32 = if is_odd(count_ones(top)) {
            0x2000000u32
        } else {
            0u32
        };

        base | low_bit | high_bit
    }
}

impl vstd::std_specs::convert::FromSpecImpl<WiegandData> for u32 {
    open spec fn obeys_from_spec() -> bool {
        true
    }

    open spec fn from_spec(item: WiegandData) -> u32 {
        encode_spec(item)
    }
}

/// Encoding then decoding returns the payload unchanged, for every
/// representable payload: the round-trip law of the codec.
pub proof fn lemma_round_trip(d: WiegandData)
    ensures
        decode_spec(encode_spec(d)) == Ok::<WiegandData, Error>(d),
{
    let id: u16 = d.id;
    let fac: u8 = d.facility;
    let p: u32 = payload_bits(d);
    let e0: u32 = if ones(bottom_bits(p), 31) % 2 == 0 {
        1u32
    } else {
        0u32
    };
    let e25: u32 = if ones(top_bits(p), 31) % 2 == 1 {
        0x2000000u32
    } else {
        0u32
    };
    let w: u32 = encode_spec(d);
    assert(w == p | e0 | e25);
    assert({
        &&& bottom_bits(p | e0 | e25) == bottom_bits(p)
        &&& top_bits(p | e0 | e25) == top_bits(p)
        &&& id_bits(p | e0 | e25) == id as u32
        &&& facility_bits(p | e0 | e25) == fac as u32
        &&& low_parity_bit(p | e0 | e25) == (e0 == 1)
        &&& top_parity_bit(p | e0 | e25) == (e25 == 0x2000000)
        &&& ((id as u32) as u16) == id
        &&& ((fac as u32) as u8) == fac
    }) by (bit_vector)
        requires
            p == ((id as u32) << 1) | ((fac as u32) << 17),
            e0 == 0 || e0 == 1,
            e25 == 0 || e25 == 0x2000000,
    ;
    assert(parity_holds(w));
    assert(WiegandData { facility: facility_bits(w) as u8, id: id_bits(w) as u16 } == d);
}

} // verus!
