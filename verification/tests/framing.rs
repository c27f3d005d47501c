use wiegand::encode_pulses;
use wiegand::Accumulator;
use wiegand::BitQueue;
use wiegand::Config;
use wiegand::Error;
use wiegand::FrameReader;
use wiegand::PollOutcome;
use wiegand::WiegandData;

/// The 26 bits of a wire word, most significant first.
fn bits_of(word: u32) -> Vec<bool> {
    (0..26).map(|i| (word >> (25 - i)) & 1 == 1).collect()
}

/// Feeds one well-formed bit event to the reader: a poll that sees the pulse,
/// then a poll that sees both lines back at rest, no countdown expiring.
fn feed_bit(reader: &mut FrameReader, bit: bool) -> (PollOutcome, PollOutcome) {
    let on_pulse = reader.poll(!bit, bit, false);
    let on_release = reader.poll(false, false, false);
    (on_pulse, on_release)
}

#[test]
fn accumulator_completes_frame() {
    let mut acc = Accumulator::new();
    let bits = bits_of(0x37E0002);
    for (i, bit) in bits.iter().enumerate() {
        let out = acc.push_bit(*bit);
        if i < 25 {
            assert_eq!(out, None);
        } else {
            assert_eq!(
                out,
                Some(Ok(WiegandData {
                    facility: 0xBF,
                    id: 0x01
                }))
            );
        }
    }
}

#[test]
fn accumulator_frames_are_independent() {
    // After a terminal outcome -- success or parity failure -- the next 26
    // bits decode on their own.
    let mut acc = Accumulator::new();
    for bit in bits_of(0x17E0002) {
        if let Some(out) = acc.push_bit(bit) {
            assert_eq!(out, Err(Error::Parity));
        }
    }
    for (i, bit) in bits_of(0x2511055).iter().enumerate() {
        let out = acc.push_bit(*bit);
        if i < 25 {
            assert_eq!(out, None);
        } else {
            assert_eq!(
                out,
                Some(Ok(WiegandData {
                    facility: 0x28,
                    id: 0x882A
                }))
            );
        }
    }
}

#[test]
fn queue_preserves_order_across_producers() {
    // Two producers contribute pulses of one frame in a defined interleaving:
    // the drained outcome equals feeding the same interleaved sequence
    // directly into an accumulator.
    let bits = bits_of(0x2511055);
    // Producer one detects the even-numbered pulses, producer two the
    // odd-numbered ones; their pushes alternate, so the queue receives the
    // bits in the defined interleaving: the original pulse order.
    let producer_one: Vec<bool> = bits.iter().copied().step_by(2).collect();
    let producer_two: Vec<bool> = bits.iter().copied().skip(1).step_by(2).collect();

    let mut queue = BitQueue::new();
    for i in 0..13 {
        queue.push(producer_one[i]);
        queue.push(producer_two[i]);
    }
    let mut acc = Accumulator::new();
    let outs = queue.drain_into(&mut acc);
    assert_eq!(queue.len(), 0);

    let mut acc_direct = Accumulator::new();
    let mut outs_direct = Vec::new();
    for bit in &bits {
        if let Some(out) = acc_direct.push_bit(*bit) {
            outs_direct.push(out);
        }
    }
    assert_eq!(outs, outs_direct);
    assert_eq!(
        outs,
        vec![Ok(WiegandData {
            facility: 0x28,
            id: 0x882A
        })]
    );
}

#[test]
fn queue_drains_in_batches() {
    // Draining after each batch of pushes yields the same frame as draining
    // everything at once: batching does not reorder or drop bits.
    let bits = bits_of(0x37E0002);
    let mut queue = BitQueue::new();
    let mut acc = Accumulator::new();
    let mut outs = Vec::new();

    for batch in bits.chunks(7) {
        for bit in batch {
            queue.push(*bit);
        }
        outs.extend(queue.drain_into(&mut acc));
    }
    assert_eq!(
        outs,
        vec![Ok(WiegandData {
            facility: 0xBF,
            id: 0x01
        })]
    );
}

#[test]
fn draining_an_empty_queue_changes_nothing() {
    let mut queue = BitQueue::new();
    let mut acc = Accumulator::new();
    for bit in &bits_of(0x37E0002)[..5] {
        acc.push_bit(*bit);
    }
    let outs = queue.drain_into(&mut acc);
    assert_eq!(outs, Vec::new());
    // The five pending bits are still in flight: 21 more complete the frame.
    let mut result = None;
    for bit in &bits_of(0x37E0002)[5..] {
        if let Some(out) = acc.push_bit(*bit) {
            result = Some(out);
        }
    }
    assert_eq!(
        result,
        Some(Ok(WiegandData {
            facility: 0xBF,
            id: 0x01
        }))
    );
}

#[test]
fn two_queued_frames_yield_two_results() {
    // The 27th queued bit begins a new frame: 52 bits are two frames.
    let mut queue = BitQueue::new();
    for bit in bits_of(0x37E0002) {
        queue.push(bit);
    }
    for bit in bits_of(0x2511055) {
        queue.push(bit);
    }
    let mut acc = Accumulator::new();
    let outs = queue.drain_into(&mut acc);
    assert_eq!(
        outs,
        vec![
            Ok(WiegandData {
                facility: 0xBF,
                id: 0x01
            }),
            Ok(WiegandData {
                facility: 0x28,
                id: 0x882A
            }),
        ]
    );
}

#[test]
fn polled_frame_completes_and_resets() {
    let mut reader = FrameReader::new();
    let bits = bits_of(0x37E0002);
    for (i, bit) in bits.iter().enumerate() {
        let (on_pulse, on_release) = feed_bit(&mut reader, *bit);
        assert_eq!(on_pulse, PollOutcome::Pending);
        if i < 25 {
            assert_eq!(on_release, PollOutcome::Pending);
        } else {
            assert_eq!(
                on_release,
                PollOutcome::Complete(WiegandData {
                    facility: 0xBF,
                    id: 0x01
                })
            );
        }
    }
    assert_eq!(reader, FrameReader::new());

    // The reader is at rest: the next frame decodes independently.
    for (i, bit) in bits_of(0x2511055).iter().enumerate() {
        let (_, on_release) = feed_bit(&mut reader, *bit);
        if i == 25 {
            assert_eq!(
                on_release,
                PollOutcome::Complete(WiegandData {
                    facility: 0x28,
                    id: 0x882A
                })
            );
        }
    }
}

#[test]
fn polled_gap_timeout_reports_partial_word() {
    let mut reader = FrameReader::new();
    let bits = bits_of(0x37E0002);
    for bit in &bits[..25] {
        let (on_pulse, on_release) = feed_bit(&mut reader, *bit);
        assert_eq!(on_pulse, PollOutcome::Pending);
        assert_eq!(on_release, PollOutcome::Pending);
    }
    // No 26th pulse arrives within the inter-bit budget: not a silently
    // truncated success, but a timeout carrying the 25 bits seen so far.
    let partial = 0x37E0002u32 >> 1;
    assert_eq!(
        reader.poll(false, false, true),
        PollOutcome::Failed(Error::TimedOutUp(partial))
    );
    assert_eq!(reader, FrameReader::new());
}

#[test]
fn polled_stuck_pulse_reports_partial_word() {
    let mut reader = FrameReader::new();
    // A pulse begins on the line that encodes 1 ...
    assert_eq!(reader.poll(false, true, false), PollOutcome::Pending);
    // ... and never ends within the pulse-end budget.
    assert_eq!(
        reader.poll(false, true, true),
        PollOutcome::Failed(Error::TimedOutDown(1))
    );
    assert_eq!(reader, FrameReader::new());
}

#[test]
fn polled_idle_lines_stay_pending() {
    let mut reader = FrameReader::new();
    for _ in 0..100 {
        assert_eq!(reader.poll(false, false, false), PollOutcome::Pending);
    }
    assert_eq!(reader, FrameReader::new());
}

#[test]
fn encode_pulses_plans_the_wire_word() {
    let pulses = encode_pulses(WiegandData {
        facility: 0xFF,
        id: 0xFFFF,
    });
    // The wire word is 0x1FFFFFF: the even-parity bit (first pulse) is clear,
    // every other pulse goes on the line that encodes 1.
    assert_eq!(pulses.len(), 26);
    assert!(!pulses[0]);
    assert!(pulses[1..].iter().all(|&p| p));
}

#[test]
fn encoded_pulses_decode_back() {
    let data = WiegandData {
        facility: 0x7E,
        id: 0x7FFE,
    };
    let mut acc = Accumulator::new();
    let mut result = None;
    for pulse in encode_pulses(data) {
        if let Some(out) = acc.push_bit(pulse) {
            result = Some(out);
        }
    }
    assert_eq!(result, Some(Ok(data)));
}

#[test]
fn config_default_matches_documented_timing() {
    let config = Config::default();
    assert_eq!(config.pulse_end_timeout_us, 1000);
    assert_eq!(config.bit_start_timeout_us, 4000);
    assert_eq!(config.pulse_width_us, 40);
    assert_eq!(config.bit_gap_us, 2000);
}
