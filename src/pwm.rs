//! PWM duty control: per-channel duty percentages turned into hardware duty counts.
use vstd::prelude::*;

verus! {

/// The first PWM output.
pub const PWM_CHANNEL_1: u8 = 1;

/// The second PWM output.
pub const PWM_CHANNEL_2: u8 = 2;

/// A duty percentage for one output, as queued for the PWM task.
#[derive(Debug, Clone, Copy, PartialEq, Eq, Structural)]
pub struct PwmCommand {
    pub channel: u8,
    pub percent: u16,
}

/// A requested percentage as queued: values outside the 16-bit range are
/// clamped to its top, which in turn clamps the duty to its maximum.
pub open spec fn spec_percent(v: int) -> u16 {
    if 0 <= v <= 0xffff {
        v as u16
    } else {
        0xffff
    }
}

/// The queued percentage for a requested one.
pub fn percent_from_request(v: i32) -> (r: u16)
    ensures
        r == spec_percent(v as int),
{
    if 0 <= v && v <= 0xffff {
        v as u16
    } else {
        u16::MAX
    }
}

/// `max_duty * percent / 100`, clamped to `max_duty`.
pub open spec fn spec_duty(max_duty: u16, percent: u16) -> int {
    let duty = max_duty * percent / 100;
    if duty <= max_duty {
        duty
    } else {
        max_duty as int
    }
}

/// The duty count for a percentage; percentages above 100 give the full count.
pub fn duty_for_percent(max_duty: u16, percent: u16) -> (r: u16)
    ensures
        r == spec_duty(max_duty, percent),
        r <= max_duty,
{
    let max = max_duty as u32;
    assert(max * (percent as u32) <= 0xffff * 0xffff) by (nonlinear_arith)
        requires
            max <= 0xffff,
            percent <= 0xffff,
    ;
    let duty = max * (percent as u32) / 100;
    if duty <= max {
        duty as u16
    } else {
        max_duty
    }
}

} // verus!
