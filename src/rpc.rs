//! The command processor of the control channel.
//!
//! One exchange is one packet in and one packet out. The processor decodes
//! the request, dispatches on its operation code and builds the response; what
//! the request asks of the other tasks (a sequencer command, a rail command,
//! PWM commands) comes back as `Actions` for the caller to post before it
//! sends the response.
use vstd::prelude::*;
use crate::coms::{
    blob_field, encode_fields, frame, parse_message, Fields, QControl, QRequest, QResponse, QState,
    Shape, TAG_FIRST, TAG_SECOND, TAG_THIRD_BYTES, TAG_THIRD_INT,
};
use crate::wire::{int32_wire, lemma_int32_round_trip, lemma_varint_len};
use crate::pwm::{percent_from_request, spec_percent, PwmCommand, PWM_CHANNEL_1, PWM_CHANNEL_2};
use crate::sequencer::{rail_command_for, RailCommand, RailControl, SequencerCommand};

verus! {

/// The largest packet either logical channel carries.
pub const MAX_PACKET_SIZE: usize = 64;

/// The operations a request may ask for.
#[derive(Debug, Clone, Copy, PartialEq, Eq, Structural)]
pub enum Commands {
    Nop,
    Control,
    Status,
    Reset,
    Shutdown,
}

impl Commands {
    pub open spec fn spec_from_i32(value: int) -> Option<Commands> {
        if value == 0 {
            Some(Commands::Nop)
        } else if value == 1 {
            Some(Commands::Control)
        } else if value == 2 {
            Some(Commands::Status)
        } else if value == 3 {
            Some(Commands::Reset)
        } else if value == 4 {
            Some(Commands::Shutdown)
        } else {
            None
        }
    }

    /// The operation of an operation code, if it names one.
    pub fn from_i32(value: i32) -> (r: Option<Commands>)
        ensures
            r == Self::spec_from_i32(value as int),
    {
        match value {
            0 => Some(Commands::Nop),
            1 => Some(Commands::Control),
            2 => Some(Commands::Status),
            3 => Some(Commands::Reset),
            4 => Some(Commands::Shutdown),
            _ => None,
        }
    }
}

/// The outcome codes of an exchange, as the response's `error` field carries them.
#[derive(Debug, Clone, Copy, PartialEq, Eq, Structural)]
pub enum Errors {
    NoError,
    InvalidCommand,
    ErrorDeserializingRequest,
    ErrorSerializingResponse,
    ErrorDeserializingRequestData,
    ErrorSerializingResponseData,
}

impl Errors {
    pub open spec fn spec_code(self) -> i32 {
        match self {
            Errors::NoError => 0,
            Errors::InvalidCommand => 1,
            Errors::ErrorDeserializingRequest => 2,
            Errors::ErrorSerializingResponse => 3,
            Errors::ErrorDeserializingRequestData => 4,
            Errors::ErrorSerializingResponseData => 5,
        }
    }

    /// The code sent on the wire.
    pub fn code(&self) -> (r: i32)
        ensures
            r == self.spec_code(),
    {
        match self {
            Errors::NoError => 0,
            Errors::InvalidCommand => 1,
            Errors::ErrorDeserializingRequest => 2,
            Errors::ErrorSerializingResponse => 3,
            Errors::ErrorDeserializingRequestData => 4,
            Errors::ErrorSerializingResponseData => 5,
        }
    }

    /// A short description for the log.
    pub fn to_string(error: &Errors) -> (r: &'static str)
        ensures
            *error == Errors::InvalidCommand ==> r@ == "invalid command"@,
            *error == Errors::ErrorDeserializingRequest ==> r@ == "error deserializing request"@,
            *error == Errors::ErrorSerializingResponse ==> r@ == "error serializing response"@,
            *error == Errors::ErrorDeserializingRequestData ==> r@ == "error deserializing request data"@,
            *error == Errors::ErrorSerializingResponseData ==> r@ == "error serializing response data"@,
            *error == Errors::NoError ==> r@ == "unknown error"@,
    {
        match error {
            Errors::InvalidCommand => "invalid command",
            Errors::ErrorDeserializingRequest => "error deserializing request",
            Errors::ErrorSerializingResponse => "error serializing response",
            Errors::ErrorDeserializingRequestData => "error deserializing request data",
            Errors::ErrorSerializingResponseData => "error serializing response data",
            Errors::NoError => "unknown error",
        }
    }
}

/// The shared state a status request reports, as read just before the exchange.
#[derive(Debug, Clone, Copy, PartialEq, Eq, Structural)]
pub struct Snapshot {
    pub pgood: bool,
    pub temp1: i16,
    pub temp2: i16,
}

/// What a request asks of the other tasks.
#[derive(Debug, Clone, PartialEq, Eq)]
pub struct Actions {
    /// Posted to the sequencer's single-slot command.
    pub sequencer: Option<SequencerCommand>,
    /// Posted to the rail task's single-slot command.
    pub rail: Option<RailCommand>,
    /// Sent in order on the PWM queue.
    pub pwm: Vec<PwmCommand>,
}

pub type ActionsView = (Option<SequencerCommand>, Option<RailCommand>, Seq<PwmCommand>);

impl View for Actions {
    type V = ActionsView;

    open spec fn view(&self) -> ActionsView {
        (self.sequencer, self.rail, self.pwm@)
    }
}

pub open spec fn no_actions() -> ActionsView {
    (None, None, Seq::empty())
}

impl Actions {
    /// Nothing to post.
    pub fn none() -> (r: Actions)
        ensures
            r@ == no_actions(),
    {
        Actions { sequencer: None, rail: None, pwm: Vec::new() }
    }
}

/// The status payload for a snapshot.
pub open spec fn status_fields(st: Snapshot) -> Fields {
    (if st.pgood { 1int } else { 0int }, st.temp1 as int, st.temp2 as int, Seq::empty())
}

/// A control payload asks for one PWM command per output and, where the rail
/// has its own task, a rail command.
pub open spec fn control_actions(rail: RailControl, c: Fields) -> ActionsView {
    (
        None,
        if rail == RailControl::Decoupled {
            Some(if c.0 == 0 { RailCommand::BuckOff } else { RailCommand::BuckOn })
        } else {
            None
        },
        seq![
            PwmCommand { channel: PWM_CHANNEL_1, percent: spec_percent(c.1) },
            PwmCommand { channel: PWM_CHANNEL_2, percent: spec_percent(c.2) },
        ],
    )
}

/// A shutdown goes to the sequencer of a coupled board and switches the rail off on a decoupled one.
pub open spec fn shutdown_actions(rail: RailControl) -> ActionsView {
    if rail == RailControl::Coupled {
        (Some(SequencerCommand::Shutdown), None, Seq::empty())
    } else {
        (None, Some(RailCommand::BuckOff), Seq::empty())
    }
}

/// The result of a decoded request: the response payload and the actions, or an error.
pub open spec fn spec_process(op: int, data: Seq<u8>, rail: RailControl, st: Snapshot) -> Result<(Seq<u8>, ActionsView), Errors> {
    match Commands::spec_from_i32(op) {
        None => Err(Errors::InvalidCommand),
        Some(Commands::Nop) => Ok((Seq::empty(), no_actions())),
        Some(Commands::Control) => match parse_message(data, Shape::Ints) {
            None => Err(Errors::ErrorDeserializingRequestData),
            Some(c) => Ok((Seq::empty(), control_actions(rail, c))),
        },
        Some(Commands::Status) => Ok((frame(encode_fields(status_fields(st), Shape::Ints)), no_actions())),
        Some(Commands::Reset) => Ok((Seq::empty(), (Some(SequencerCommand::Reset), None, Seq::empty()))),
        Some(Commands::Shutdown) => Ok((Seq::empty(), shutdown_actions(rail))),
    }
}

/// The response fields and actions for a decoded request: its id echoed,
/// the outcome code, and the payload (empty on error).
pub open spec fn spec_respond(req: Fields, rail: RailControl, st: Snapshot) -> (Fields, ActionsView) {
    match spec_process(req.1, req.3, rail, st) {
        Ok((data, actions)) => ((req.0, 0, 0, data), actions),
        Err(e) => ((req.0, e.spec_code() as int, 0, Seq::empty()), no_actions()),
    }
}

/// The response fields and actions for a packet. A packet that does not
/// decode as a request gets an error response with id 0.
pub open spec fn spec_exchange(packet: Seq<u8>, rail: RailControl, st: Snapshot) -> (Fields, ActionsView) {
    match parse_message(packet, Shape::Blob) {
        None => ((0, Errors::ErrorDeserializingRequest.spec_code() as int, 0, Seq::empty()), no_actions()),
        Some(req) => spec_respond(req, rail, st),
    }
}

/// Carries out a decoded request: the response payload and what to post to
/// the other tasks, or the error to report.
pub fn process_request(request: &QRequest, rail: RailControl, state: &Snapshot) -> (r: Result<(Vec<u8>, Actions), Errors>)
    ensures
        r matches Ok((d, a)) ==> spec_process(request.op as int, request.data@, rail, *state) == Ok::<(Seq<u8>, ActionsView), Errors>((d@, a@)),
        r matches Err(e) ==> spec_process(request.op as int, request.data@, rail, *state) == Err::<(Seq<u8>, ActionsView), Errors>(e),
{
    let op = match Commands::from_i32(request.op) {
        Some(op) => op,
        None => return Err(Errors::InvalidCommand),
    };
    match op {
        Commands::Nop => Ok((Vec::new(), Actions::none())),
        Commands::Control => {
            let cmd = match QControl::deserialize(request.data.as_slice()) {
                Some(c) => c,
                None => return Err(Errors::ErrorDeserializingRequestData),
            };
            let rail_cmd = if rail == RailControl::Decoupled {
                Some(rail_command_for(cmd.state_1v2))
            } else {
                None
            };
            let mut pwm: Vec<PwmCommand> = Vec::new();
            pwm.push(PwmCommand { channel: PWM_CHANNEL_1, percent: percent_from_request(cmd.pwm1) });
            pwm.push(PwmCommand { channel: PWM_CHANNEL_2, percent: percent_from_request(cmd.pwm2) });
            let actions = Actions { sequencer: None, rail: rail_cmd, pwm };
            assert(actions@ =~= control_actions(rail, cmd.fields()));
            Ok((Vec::new(), actions))
        },
        Commands::Status => {
            let status = QState {
                pgood_1v2: if state.pgood {
                    1
                } else {
                    0
                },
                temp1: state.temp1 as i32,
                temp2: state.temp2 as i32,
            };
            assert(status.fields() == status_fields(*state));
            Ok((status.serialize(), Actions::none()))
        },
        Commands::Reset => Ok(
            (Vec::new(), Actions { sequencer: Some(SequencerCommand::Reset), rail: None, pwm: Vec::new() }),
        ),
        Commands::Shutdown => {
            let actions = if rail == RailControl::Coupled {
                Actions { sequencer: Some(SequencerCommand::Shutdown), rail: None, pwm: Vec::new() }
            } else {
                Actions { sequencer: None, rail: Some(RailCommand::BuckOff), pwm: Vec::new() }
            };
            Ok((Vec::new(), actions))
        },
    }
}

/// Answers a decoded request. The response always carries the request's id.
pub fn respond(request: &QRequest, rail: RailControl, state: &Snapshot) -> (r: (QResponse, Actions))
    ensures
        (r.0.fields(), r.1@) == spec_respond(request.fields(), rail, *state),
        r.0.id == request.id,
{
    match process_request(request, rail, state) {
        Ok((data, actions)) => (QResponse { id: request.id, error: Errors::NoError.code(), data }, actions),
        Err(e) => (QResponse { id: request.id, error: e.code(), data: Vec::new() }, Actions::none()),
    }
}

/// Answers one packet of the control channel.
pub fn handle_packet(packet: &[u8], rail: RailControl, state: &Snapshot) -> (r: (QResponse, Actions))
    ensures
        (r.0.fields(), r.1@) == spec_exchange(packet@, rail, *state),
{
    match QRequest::deserialize(packet) {
        Some(request) => respond(&request, rail, state),
        None => (
            QResponse { id: 0, error: Errors::ErrorDeserializingRequest.code(), data: Vec::new() },
            Actions::none(),
        ),
    }
}

/// A status payload takes at most 34 bytes with its length prefix.
proof fn lemma_status_size(st: Snapshot)
    ensures
        frame(encode_fields(status_fields(st), Shape::Ints)).len() <= 34,
{
    let f = status_fields(st);
    lemma_varint_len(TAG_FIRST as nat);
    lemma_varint_len(TAG_SECOND as nat);
    lemma_varint_len(TAG_THIRD_INT as nat);
    lemma_int32_round_trip(f.0);
    lemma_int32_round_trip(f.1);
    lemma_int32_round_trip(f.2);
    lemma_varint_len(int32_wire(f.0));
    lemma_varint_len(int32_wire(f.1));
    lemma_varint_len(int32_wire(f.2));
    let e = encode_fields(f, Shape::Ints);
    assert(e.len() <= 33);
    lemma_varint_len(e.len());
}

/// A response whose payload is empty or a status payload fits one packet.
proof fn lemma_response_size(f: Fields, st: Snapshot)
    requires
        -0x8000_0000 <= f.0 < 0x8000_0000,
        -0x8000_0000 <= f.1 < 0x8000_0000,
        f.3.len() == 0 || f.3 == frame(encode_fields(status_fields(st), Shape::Ints)),
    ensures
        f.3.len() <= 34,
        frame(encode_fields(f, Shape::Blob)).len() <= MAX_PACKET_SIZE,
{
    lemma_status_size(st);
    lemma_varint_len(TAG_FIRST as nat);
    lemma_varint_len(TAG_SECOND as nat);
    lemma_varint_len(TAG_THIRD_BYTES as nat);
    lemma_int32_round_trip(f.0);
    lemma_int32_round_trip(f.1);
    lemma_varint_len(int32_wire(f.0));
    lemma_varint_len(int32_wire(f.1));
    lemma_varint_len(f.3.len());
    assert(blob_field(TAG_THIRD_BYTES as nat, f.3).len() <= 36);
    let e = encode_fields(f, Shape::Blob);
    assert(e.len() <= 58);
    lemma_varint_len(e.len());
}

/// The reply packet for a request packet, and what to post before sending it.
/// Every reply fits one packet.
pub fn reply(packet: &[u8], rail: RailControl, state: &Snapshot) -> (r: (Vec<u8>, Actions))
    ensures
        r.0@ == frame(encode_fields(spec_exchange(packet@, rail, *state).0, Shape::Blob)),
        r.1@ == spec_exchange(packet@, rail, *state).1,
        r.0@.len() <= MAX_PACKET_SIZE,
{
    let (response, actions) = handle_packet(packet, rail, state);
    proof {
        lemma_response_size(response.fields(), *state);
    }
    (response.serialize(), actions)
}

/// Every packet that decodes as a request is answered with that request's id.
pub proof fn response_echoes_request_id(packet: Seq<u8>, rail: RailControl, st: Snapshot)
    requires
        parse_message(packet, Shape::Blob) is Some,
    ensures
        spec_exchange(packet, rail, st).0.0 == parse_message(packet, Shape::Blob).unwrap().0,
{
}

/// A packet that does not decode as a request is answered with the
/// deserialization error, id 0 and no payload, and asks nothing of the other tasks.
pub proof fn malformed_request_rejected(packet: Seq<u8>, rail: RailControl, st: Snapshot)
    requires
        parse_message(packet, Shape::Blob) is None,
    ensures
        spec_exchange(packet, rail, st) == ((0int, 2int, 0int, Seq::<u8>::empty()), no_actions()),
{
}

/// An operation code other than 0 to 4 fails with `InvalidCommand`, whatever the payload.
pub proof fn unknown_operation_rejected(op: int, data: Seq<u8>, rail: RailControl, st: Snapshot)
    requires
        op < 0 || op > 4,
    ensures
        spec_process(op, data, rail, st) == Err::<(Seq<u8>, ActionsView), Errors>(Errors::InvalidCommand),
{
}

} // verus!
