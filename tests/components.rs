use qaxe::board::Board;
use qaxe::pwm::{duty_for_percent, percent_from_request};
use qaxe::relay::{has_preamble, Framer, FRAME_LEN};
use qaxe::sequencer::{
    rail_command_for, rail_enabled, reset_pulse, sequence_for, Outputs, Phase, PowerSequencer, RailCommand,
    RailControl, SequencerCommand, Step, Timing,
};
use qaxe::signal::{BoundedQueue, Mailbox};
use qaxe::telemetry::{decode_temperature, power_good_outputs, reading_for, sensor_address};
use qaxe::uid::{uid, uid_hex_bytes};

fn feed(framer: &mut Framer, bytes: &[u8]) -> Vec<Vec<u8>> {
    let mut frames = Vec::new();
    for &b in bytes {
        if let Some(f) = framer.push(b) {
            frames.push(f);
        }
    }
    frames
}

#[test]
fn pwm_duty_is_clamped() {
    assert_eq!(duty_for_percent(1000, 150), 1000);
    assert_eq!(duty_for_percent(1000, 50), 500);
    assert_eq!(duty_for_percent(1000, 100), 1000);
    assert_eq!(duty_for_percent(1000, 0), 0);
    assert_eq!(duty_for_percent(999, 33), 329);
    assert_eq!(duty_for_percent(u16::MAX, u16::MAX), u16::MAX);
}

#[test]
fn out_of_range_percentages_clamp() {
    assert_eq!(percent_from_request(50), 50);
    assert_eq!(percent_from_request(150), 150);
    assert_eq!(percent_from_request(65535), 65535);
    assert_eq!(percent_from_request(65586), u16::MAX);
    assert_eq!(percent_from_request(-1), u16::MAX);
    assert_eq!(percent_from_request(i32::MIN), u16::MAX);
    assert_eq!(duty_for_percent(1000, percent_from_request(65586)), 1000);
}

#[test]
fn temperature_decoding() {
    assert_eq!(decode_temperature([0x7F, 0xF0]), 2047);
    assert_eq!(decode_temperature([0x80, 0x00]), -2048);
    assert_eq!(decode_temperature([0x0D, 0x7F]), 215);
    assert_eq!(decode_temperature([0xFF, 0xF0]), -1);
    assert_eq!(decode_temperature([0x00, 0x0F]), 0);
}

#[test]
fn sensor_reads() {
    assert_eq!(sensor_address(0), 0x48);
    assert_eq!(sensor_address(1), 0x49);
    assert_eq!(reading_for(None), None);
    assert_eq!(reading_for(Some([0x80, 0x00])), Some(-2048));
}

#[test]
fn power_good_indicator() {
    assert_eq!(power_good_outputs(true), (true, false));
    assert_eq!(power_good_outputs(false), (false, true));
}

#[test]
fn framer_resyncs_after_stray_byte() {
    let body = [1u8, 2, 3, 4, 5, 6, 7, 8, 9];
    let mut input = vec![0x55, 0xAA, 0x55];
    input.extend_from_slice(&body);
    let mut framer = Framer::new(FRAME_LEN);
    let frames = feed(&mut framer, &input);
    assert_eq!(frames.len(), 1);
    assert_eq!(frames[0], input[1..].to_vec());
    assert!(framer.activity());
}

#[test]
fn framer_emits_clean_frame_once() {
    let mut input = vec![0xAA, 0x55];
    input.extend_from_slice(&[9u8; 9]);
    let mut framer = Framer::new(FRAME_LEN);
    let frames = feed(&mut framer, &input);
    assert_eq!(frames, vec![input.clone()]);
    assert!(framer.activity());
    let frames = feed(&mut framer, &input);
    assert_eq!(frames, vec![input]);
    assert!(!framer.activity());
}

#[test]
fn framer_restarts_on_byte_that_breaks_preamble() {
    let mut framer = Framer::new(FRAME_LEN);
    let mut input = vec![0xAA, 0xAA, 0x55];
    input.extend_from_slice(&[0u8; 9]);
    assert!(feed(&mut framer, &input[..11]).is_empty());
    let frames = feed(&mut framer, &input[11..]);
    assert_eq!(frames, vec![input[1..].to_vec()]);
    assert!(framer.activity());
}

#[test]
fn framer_drops_stray_byte_at_second_position() {
    let mut framer = Framer::new(FRAME_LEN);
    let mut input = vec![0xAA, 0x00, 0x55];
    input.extend_from_slice(&[0u8; 9]);
    assert!(feed(&mut framer, &input).is_empty());
    assert!(!framer.activity());
}

#[test]
fn framer_with_short_frames() {
    let mut framer = Framer::new(3);
    let frames = feed(&mut framer, &[0xAA, 0x55, 0x01, 0x00, 0xAA, 0x55, 0x02]);
    assert_eq!(frames, vec![vec![0xAA, 0x55, 0x01], vec![0xAA, 0x55, 0x02]]);
}

#[test]
fn chunk_preamble_check() {
    assert!(has_preamble(&[0xAA, 0x55, 0x00]));
    assert!(!has_preamble(&[0x55, 0xAA, 0x00]));
    assert!(!has_preamble(&[0xAA]));
}

#[test]
fn mailbox_keeps_latest_command() {
    let mut slot = Mailbox::new();
    assert!(!slot.is_pending());
    slot.post(SequencerCommand::Reset);
    slot.post(SequencerCommand::Shutdown);
    assert!(slot.is_pending());
    assert_eq!(slot.take(), Some(SequencerCommand::Shutdown));
    assert_eq!(slot.take(), None);
}

#[test]
fn full_queue_refuses_until_drained() {
    let mut queue = BoundedQueue::new(1);
    assert_eq!(queue.try_send(10u8), Ok(()));
    assert!(queue.is_full());
    assert_eq!(queue.try_send(20u8), Err(20));
    assert_eq!(queue.len(), 1);
    assert_eq!(queue.try_receive(), Some(10));
    assert_eq!(queue.try_send(20u8), Ok(()));
    assert_eq!(queue.try_receive(), Some(20));
    assert_eq!(queue.try_receive(), None);
}

#[test]
fn queue_keeps_order() {
    let mut queue = BoundedQueue::new(2);
    assert_eq!(queue.try_send(1u8), Ok(()));
    assert_eq!(queue.try_send(2u8), Ok(()));
    assert_eq!(queue.try_send(3u8), Err(3));
    assert_eq!(queue.try_receive(), Some(1));
    assert_eq!(queue.try_receive(), Some(2));
}

#[test]
fn reset_sequence_order() {
    let steps = sequence_for(SequencerCommand::Reset, &Timing::standard());
    let out = |rail_enable, ldo_enable, reset_asserted| Outputs { rail_enable, ldo_enable, reset_asserted };
    assert_eq!(
        steps,
        vec![
            Step { phase: Phase::Resetting, outputs: out(false, false, true), hold_ms: 250 },
            Step { phase: Phase::PoweringUp, outputs: out(false, true, true), hold_ms: 100 },
            Step { phase: Phase::PoweringUp, outputs: out(true, true, true), hold_ms: 250 },
            Step { phase: Phase::Running, outputs: out(true, true, false), hold_ms: 250 },
        ]
    );
    let steps = sequence_for(SequencerCommand::Shutdown, &Timing::standard());
    assert_eq!(steps, vec![Step { phase: Phase::Down, outputs: out(false, false, true), hold_ms: 0 }]);
}

#[test]
fn sequencer_phases() {
    let mut sequencer = PowerSequencer::new();
    assert_eq!(sequencer.phase(), Phase::Down);
    let steps = sequencer.handle(SequencerCommand::Reset, &Timing::standard());
    assert_eq!(steps.len(), 4);
    assert_eq!(sequencer.phase(), Phase::Running);
    sequencer.handle(SequencerCommand::Shutdown, &Timing::standard());
    assert_eq!(sequencer.phase(), Phase::Down);
}

#[test]
fn decoupled_rail_and_reset() {
    assert!(rail_enabled(RailCommand::BuckOn));
    assert!(!rail_enabled(RailCommand::BuckOff));
    assert_eq!(rail_command_for(0), RailCommand::BuckOff);
    assert_eq!(rail_command_for(7), RailCommand::BuckOn);
    assert_eq!(reset_pulse(500), vec![(true, 500), (false, 500)]);
}

#[test]
fn board_descriptors() {
    let coupled = Board::coupled();
    assert_eq!(coupled.rail, RailControl::Coupled);
    assert_eq!(coupled.frame_len, 11);
    assert_eq!(coupled.timing, Timing::standard());
    let decoupled = Board::decoupled();
    assert_eq!(decoupled.rail, RailControl::Decoupled);
    assert_eq!(decoupled.reset_pulse_ms, 500);
    assert_eq!(coupled.pwm_queue_capacity, 1);
    assert_eq!(decoupled.pwm_queue_capacity, 2);
}

#[test]
fn uid_bytes_and_hex() {
    let bytes = uid([0x0403_0201, 0x0807_0605, 0xDEAD_BEEF]);
    assert_eq!(bytes, [1, 2, 3, 4, 5, 6, 7, 8, 0xEF, 0xBE, 0xAD, 0xDE]);
    let hex = uid_hex_bytes(&bytes);
    assert_eq!(&hex[..], b"0102030405060708EFBEADDE");
}
