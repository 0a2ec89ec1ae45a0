//! Board controller logic: the control-channel protocol, the power sequencer,
//! PWM duty computation, temperature decoding, the relay framer and the
//! small signalling primitives the tasks share.

pub mod telemetry;
pub mod wire;
pub mod coms;
pub mod pwm;
pub mod sequencer;
pub mod rpc;
pub mod relay;
pub mod signal;
pub mod uid;
pub mod board;
