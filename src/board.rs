//! What differs between board revisions, gathered in one descriptor.
use vstd::prelude::*;
use crate::relay::FRAME_LEN;
use crate::sequencer::{RailControl, Timing};

verus! {

/// How long a decoupled board holds its reset line asserted, then released, per reset.
pub const RESET_PULSE_MS: u32 = 500;

/// A board revision: how its rail is controlled, the sequencing delays and the relay frame length.
#[derive(Debug, Clone, Copy, PartialEq, Eq, Structural)]
pub struct Board {
    pub rail: RailControl,
    pub timing: Timing,
    pub reset_pulse_ms: u32,
    pub frame_len: usize,
    /// How many PWM commands may wait in the queue before the sender has to wait.
    pub pwm_queue_capacity: usize,
}

impl Board {
    /// A board whose sequencer drives reset, LDOs and main rail together; one
    /// control request's PWM commands go through the queue one at a time.
    pub fn coupled() -> (r: Board)
        ensures
            r.rail == RailControl::Coupled,
            r.timing == (Timing { reset_hold_ms: 250, ldo_settle_ms: 100, rail_settle_ms: 250, release_ms: 250 }),
            r.reset_pulse_ms == RESET_PULSE_MS,
            r.frame_len == FRAME_LEN,
            r.pwm_queue_capacity == 1,
    {
        Board {
            rail: RailControl::Coupled,
            timing: Timing::standard(),
            reset_pulse_ms: RESET_PULSE_MS,
            frame_len: FRAME_LEN,
            pwm_queue_capacity: 1,
        }
    }

    /// A board whose main rail has a task of its own and whose reset is pulsed.
    pub fn decoupled() -> (r: Board)
        ensures
            r.rail == RailControl::Decoupled,
            r.timing == (Timing { reset_hold_ms: 250, ldo_settle_ms: 100, rail_settle_ms: 250, release_ms: 250 }),
            r.reset_pulse_ms == RESET_PULSE_MS,
            r.frame_len == FRAME_LEN,
            r.pwm_queue_capacity == 2,
    {
        Board {
            rail: RailControl::Decoupled,
            timing: Timing::standard(),
            reset_pulse_ms: RESET_PULSE_MS,
            frame_len: FRAME_LEN,
            pwm_queue_capacity: 2,
        }
    }
}

} // verus!
