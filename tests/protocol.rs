use qaxe::coms::{QControl, QRequest, QResponse, QState};
use qaxe::pwm::PwmCommand;
use qaxe::rpc::{handle_packet, process_request, reply, respond, Actions, Commands, Errors, Snapshot};
use qaxe::sequencer::{RailCommand, RailControl, SequencerCommand};

fn idle_state() -> Snapshot {
    Snapshot { pgood: false, temp1: 0, temp2: 0 }
}

fn request_packet(id: i32, op: i32, data: Vec<u8>) -> Vec<u8> {
    QRequest { id, op, data }.serialize()
}

#[test]
fn status_request_end_to_end() {
    let state = Snapshot { pgood: true, temp1: 215, temp2: 198 };
    let packet = request_packet(7, 2, Vec::new());
    assert_eq!(packet, vec![0x04, 0x08, 0x07, 0x10, 0x02]);
    let (bytes, actions) = reply(&packet, RailControl::Coupled, &state);
    let response = QResponse::deserialize(&bytes).unwrap();
    assert_eq!(response.id, 7);
    assert_eq!(response.error, 0);
    let expected = QState { pgood_1v2: 1, temp1: 215, temp2: 198 }.serialize();
    assert_eq!(expected, vec![0x08, 0x08, 0x01, 0x10, 0xD7, 0x01, 0x18, 0xC6, 0x01]);
    assert_eq!(response.data, expected);
    assert_eq!(actions, Actions { sequencer: None, rail: None, pwm: Vec::new() });
}

#[test]
fn response_echoes_id_for_every_operation() {
    let control = QControl { state_1v2: 1, pwm1: 10, pwm2: 20 }.serialize();
    for (op, data) in [(0, Vec::new()), (1, control), (2, Vec::new()), (3, Vec::new()), (4, Vec::new()), (9, Vec::new())] {
        for id in [1, -5, 123456, i32::MAX, i32::MIN] {
            let packet = request_packet(id, op, data.clone());
            let (response, _) = handle_packet(&packet, RailControl::Decoupled, &idle_state());
            assert_eq!(response.id, id);
        }
    }
}

#[test]
fn error_response_keeps_request_id() {
    let request = QRequest { id: 42, op: 1, data: vec![0x03, 0x08] };
    let (response, actions) = respond(&request, RailControl::Coupled, &idle_state());
    assert_eq!(response.id, 42);
    assert_eq!(response.error, 4);
    assert!(response.data.is_empty());
    assert_eq!(actions, Actions::none());
}

#[test]
fn malformed_packets_are_rejected() {
    let malformed: Vec<Vec<u8>> = vec![
        vec![],
        vec![0x05, 0x08],
        vec![0x02, 0x08],
        vec![0x80, 0x80],
        vec![0x0b, 0xff, 0xff, 0xff, 0xff, 0xff, 0xff, 0xff, 0xff, 0xff, 0xff, 0xff],
        vec![0x02, 0x0b, 0x01],
        vec![0x02, 0x0e, 0x01],
        vec![0x03, 0x1a, 0x05, 0x01],
        vec![0x02, 0x09, 0x01],
        vec![0x06, 0x1a, 0xff, 0xff, 0xff, 0xff, 0x0f],
    ];
    for packet in malformed {
        let (response, actions) = handle_packet(&packet, RailControl::Coupled, &idle_state());
        assert_eq!(response, QResponse { id: 0, error: 2, data: Vec::new() }, "packet {:?}", packet);
        assert_eq!(actions, Actions::none());
        let (bytes, _) = reply(&packet, RailControl::Coupled, &idle_state());
        assert_eq!(bytes, vec![0x02, 0x10, 0x02]);
    }
}

#[test]
fn unknown_operations_are_invalid() {
    for op in [5, 6, -1, 100, i32::MIN, i32::MAX] {
        let request = QRequest { id: 3, op, data: vec![0xff, 0xff] };
        assert_eq!(process_request(&request, RailControl::Coupled, &idle_state()), Err(Errors::InvalidCommand));
        let (response, actions) = respond(&request, RailControl::Decoupled, &idle_state());
        assert_eq!(response, QResponse { id: 3, error: 1, data: Vec::new() });
        assert_eq!(actions, Actions::none());
    }
}

#[test]
fn control_round_trip() {
    let control = QControl { state_1v2: 1, pwm1: 50, pwm2: 75 };
    let bytes = control.serialize();
    assert_eq!(bytes, vec![0x06, 0x08, 0x01, 0x10, 0x32, 0x18, 0x4b]);
    assert_eq!(QControl::deserialize(&bytes), Some(control));
    let mut body = Vec::new();
    control.write_message(&mut body);
    assert_eq!(body.len(), control.get_size());
    assert_eq!(QControl::decode(&body), Some(control));
}

#[test]
fn default_control_encodes_to_no_fields() {
    let control = QControl { state_1v2: 0, pwm1: 0, pwm2: 0 };
    assert_eq!(control.get_size(), 0);
    assert_eq!(control.serialize(), vec![0x00]);
    assert_eq!(QControl::deserialize(&[0x00]), Some(control));
}

#[test]
fn negative_values_take_ten_bytes() {
    let control = QControl { state_1v2: -1, pwm1: i32::MIN, pwm2: 0 };
    let bytes = control.serialize();
    assert_eq!(control.get_size(), 22);
    assert_eq!(bytes.len(), 23);
    assert_eq!(&bytes[1..12], &[0x08, 0xff, 0xff, 0xff, 0xff, 0xff, 0xff, 0xff, 0xff, 0xff, 0x01]);
    assert_eq!(QControl::deserialize(&bytes), Some(control));
}

#[test]
fn request_round_trip_with_payload() {
    let request = QRequest { id: 300, op: 1, data: vec![1, 2, 3] };
    let bytes = request.serialize();
    assert_eq!(bytes, vec![0x0a, 0x08, 0xac, 0x02, 0x10, 0x01, 0x1a, 0x03, 1, 2, 3]);
    assert_eq!(QRequest::deserialize(&bytes), Some(request.clone()));
    assert_eq!(QRequest::decode(&bytes[1..]), Some(request));
}

#[test]
fn unknown_fields_are_skipped() {
    let body = vec![
        0x20, 0x05, // field 4, varint
        0x08, 0x07, // id 7
        0x2d, 1, 2, 3, 4, // field 5, fixed32
        0x31, 1, 2, 3, 4, 5, 6, 7, 8, // field 6, fixed64
        0x3a, 0x02, 9, 9, // field 7, length-delimited
        0x10, 0x02, // op 2
        0x18, 0x01, // a varint in field 3 of a request is not its payload
    ];
    assert_eq!(QRequest::decode(&body), Some(QRequest { id: 7, op: 2, data: Vec::new() }));
}

#[test]
fn later_field_overrides_earlier() {
    let body = vec![0x08, 0x01, 0x08, 0x02];
    assert_eq!(QState::decode(&body), Some(QState { pgood_1v2: 2, temp1: 0, temp2: 0 }));
}

#[test]
fn trailing_bytes_after_message_are_ignored() {
    let bytes = vec![0x02, 0x08, 0x05, 0xff, 0xff];
    assert_eq!(QResponse::deserialize(&bytes), Some(QResponse { id: 5, error: 0, data: Vec::new() }));
}

#[test]
fn response_round_trip() {
    let response = QResponse { id: -2, error: 5, data: vec![0xaa; 30] };
    let bytes = response.serialize();
    assert_eq!(bytes.len(), 1 + response.get_size());
    assert_eq!(QResponse::deserialize(&bytes), Some(response));
}

#[test]
fn default_response_is_empty() {
    let response = QResponse::default();
    assert_eq!(response, QResponse { id: 0, error: 0, data: Vec::new() });
    assert_eq!(response.serialize(), vec![0x00]);
}

#[test]
fn state_round_trip_with_negative_temperatures() {
    let state = QState { pgood_1v2: 0, temp1: -2048, temp2: 2047 };
    let bytes = state.serialize();
    assert_eq!(QState::deserialize(&bytes), Some(state));
}

#[test]
fn control_actions_on_coupled_board() {
    let data = QControl { state_1v2: 0, pwm1: 150, pwm2: -1 }.serialize();
    let request = QRequest { id: 1, op: 1, data };
    let (payload, actions) = process_request(&request, RailControl::Coupled, &idle_state()).unwrap();
    assert!(payload.is_empty());
    assert_eq!(
        actions,
        Actions {
            sequencer: None,
            rail: None,
            pwm: vec![PwmCommand { channel: 1, percent: 150 }, PwmCommand { channel: 2, percent: 65535 }],
        }
    );
}

#[test]
fn oversized_byte_string_length_is_rejected() {
    let body = [0x1a, 0xff, 0xff, 0xff, 0xff, 0x0f];
    assert_eq!(QRequest::decode(&body), None);
    assert_eq!(QResponse::decode(&body), None);
}

#[test]
fn control_percentages_above_range_clamp() {
    let data = QControl { state_1v2: 1, pwm1: 65586, pwm2: 50 }.serialize();
    let request = QRequest { id: 1, op: 1, data };
    let (_, actions) = process_request(&request, RailControl::Coupled, &idle_state()).unwrap();
    assert_eq!(actions.pwm, vec![PwmCommand { channel: 1, percent: 65535 }, PwmCommand { channel: 2, percent: 50 }]);
}

#[test]
fn control_actions_on_decoupled_board() {
    let on = QRequest { id: 1, op: 1, data: QControl { state_1v2: 1, pwm1: 30, pwm2: 40 }.serialize() };
    let (_, actions) = process_request(&on, RailControl::Decoupled, &idle_state()).unwrap();
    assert_eq!(actions.rail, Some(RailCommand::BuckOn));
    assert_eq!(actions.pwm, vec![PwmCommand { channel: 1, percent: 30 }, PwmCommand { channel: 2, percent: 40 }]);
    let off = QRequest { id: 1, op: 1, data: QControl { state_1v2: 0, pwm1: 0, pwm2: 0 }.serialize() };
    let (_, actions) = process_request(&off, RailControl::Decoupled, &idle_state()).unwrap();
    assert_eq!(actions.rail, Some(RailCommand::BuckOff));
}

#[test]
fn reset_and_shutdown_actions() {
    let reset = QRequest { id: 9, op: 3, data: Vec::new() };
    let shutdown = QRequest { id: 9, op: 4, data: Vec::new() };
    let (_, a) = process_request(&reset, RailControl::Coupled, &idle_state()).unwrap();
    assert_eq!(a, Actions { sequencer: Some(SequencerCommand::Reset), rail: None, pwm: Vec::new() });
    let (_, a) = process_request(&reset, RailControl::Decoupled, &idle_state()).unwrap();
    assert_eq!(a, Actions { sequencer: Some(SequencerCommand::Reset), rail: None, pwm: Vec::new() });
    let (_, a) = process_request(&shutdown, RailControl::Coupled, &idle_state()).unwrap();
    assert_eq!(a, Actions { sequencer: Some(SequencerCommand::Shutdown), rail: None, pwm: Vec::new() });
    let (_, a) = process_request(&shutdown, RailControl::Decoupled, &idle_state()).unwrap();
    assert_eq!(a, Actions { sequencer: None, rail: Some(RailCommand::BuckOff), pwm: Vec::new() });
}

#[test]
fn nop_succeeds_without_actions() {
    let packet = request_packet(11, 0, Vec::new());
    let (bytes, actions) = reply(&packet, RailControl::Coupled, &idle_state());
    assert_eq!(bytes, vec![0x02, 0x08, 0x0b]);
    assert_eq!(actions, Actions::none());
}

#[test]
fn status_with_negative_readings_fits_a_packet() {
    let state = Snapshot { pgood: true, temp1: -2048, temp2: -1 };
    let packet = request_packet(i32::MIN, 2, Vec::new());
    let (bytes, _) = reply(&packet, RailControl::Coupled, &state);
    assert!(bytes.len() <= 64);
    let response = QResponse::deserialize(&bytes).unwrap();
    assert_eq!(response.id, i32::MIN);
    assert_eq!(QState::deserialize(&response.data), Some(QState { pgood_1v2: 1, temp1: -2048, temp2: -1 }));
}

#[test]
fn command_codes() {
    assert_eq!(Commands::from_i32(0), Some(Commands::Nop));
    assert_eq!(Commands::from_i32(1), Some(Commands::Control));
    assert_eq!(Commands::from_i32(2), Some(Commands::Status));
    assert_eq!(Commands::from_i32(3), Some(Commands::Reset));
    assert_eq!(Commands::from_i32(4), Some(Commands::Shutdown));
    assert_eq!(Commands::from_i32(5), None);
}

#[test]
fn error_codes_and_messages() {
    let all = [
        (Errors::NoError, 0, "unknown error"),
        (Errors::InvalidCommand, 1, "invalid command"),
        (Errors::ErrorDeserializingRequest, 2, "error deserializing request"),
        (Errors::ErrorSerializingResponse, 3, "error serializing response"),
        (Errors::ErrorDeserializingRequestData, 4, "error deserializing request data"),
        (Errors::ErrorSerializingResponseData, 5, "error serializing response data"),
    ];
    for (e, code, text) in all {
        assert_eq!(e.code(), code);
        assert_eq!(Errors::to_string(&e), text);
    }
}
