//! Codec and bit-framing state machines for the 26-bit Wiegand wire protocol.
//!
//! The wire word is a 26-bit integer: bit 0 is the odd-parity bit over bits
//! 1..=12, bits 1..=16 hold the id, bits 17..=24 hold the facility code, and
//! bit 25 is the even-parity bit over bits 13..=24. The codec converts between
//! that word and a [`WiegandData`] payload; the decoder state machines turn
//! observed line pulses into validated payloads; the encoder plans the 26
//! output pulses for a payload. Driving the physical lines is left to the
//! caller, which feeds line levels and timer expiry in and performs the
//! pulses the encoder plans.

pub mod codec;
pub mod decoder;
pub mod queue;
pub mod reader;
pub mod writer;

pub use codec::count_ones;
pub use codec::is_odd;
pub use codec::Error;
pub use codec::WiegandData;
pub use decoder::Accumulator;
pub use queue::BitQueue;
pub use reader::FrameReader;
pub use reader::Phase;
pub use reader::PollOutcome;
pub use writer::encode_pulses;
pub use writer::Config;
