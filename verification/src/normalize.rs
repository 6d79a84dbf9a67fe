//! Rate normalisation: from raw counters to a usage byte in `0..=255`.

use vstd::prelude::*;

verus! {

/// The largest usage byte; a metric at full deflection.
pub const FULL_SCALE: u8 = 255;

/// Raw temperature reading that maps to full scale.
pub const TEMPERATURE_RANGE: u64 = 1000;

/// Raw fan reading that maps to full scale.
pub const FAN_RANGE: u64 = 5000;

/// Battery percentage that maps to full scale.
pub const BATTERY_RANGE: u64 = 110;

/// `value` on a linear scale on which `range` maps to 255.
///
/// The quotient is rounded down, a `range` of zero gives zero, and a value
/// beyond the range saturates at 255.
pub open spec fn scaled(value: int, range: int) -> int {
    if range <= 0 || value <= 0 {
        0
    } else if value >= range {
        255
    } else {
        255 * value / range
    }
}

/// `current - last`, or zero when the counter went backwards.
pub open spec fn delta(current: int, last: int) -> int {
    if current < last {
        0
    } else {
        current - last
    }
}

/// The larger of the two.
pub open spec fn larger(a: int, b: int) -> int {
    if a < b {
        b
    } else {
        a
    }
}

/// Usage of one processor core between two readings of its cumulative
/// `total` and `idle` time.
///
/// A counter that went backwards resets the baseline: the usage is zero.
/// Otherwise the usage is the busy share of the elapsed time, where idle time
/// that exceeds the elapsed time counts as no busy time at all.
pub open spec fn cpu_usage_of(total: int, idle: int, last_total: int, last_idle: int) -> int {
    if total < last_total || idle < last_idle {
        0
    } else {
        scaled(delta(total - last_total, idle - last_idle), total - last_total)
    }
}

/// A scaled value is a byte.
pub proof fn lemma_scaled_is_byte(value: int, range: int)
    ensures
        0 <= scaled(value, range) <= 255,
        value < range ==> scaled(value, range) < 255,
{
    if range > 0 && 0 < value < range {
        assert(0 <= 255 * value / range < 255) by (nonlinear_arith)
            requires
                0 < value < range,
        ;
    }
}

/// Inside the range nothing saturates: the byte is the rounded-down quotient.
pub proof fn lemma_scaled_is_quotient(value: int, range: int)
    requires
        0 <= value <= range,
        0 < range,
    ensures
        scaled(value, range) == 255 * value / range,
{
    if value == 0 {
        assert(255 * value / range == 0) by (nonlinear_arith)
            requires
                value == 0,
                range > 0,
        ;
    } else if value == range {
        assert(255 * value / range == 255) by (nonlinear_arith)
            requires
                value == range,
                range > 0,
        ;
    }
}

/// Full scale is reached exactly when the value reaches the range.
pub proof fn lemma_scaled_full_scale(value: int, range: int)
    requires
        0 <= value,
        0 < range,
    ensures
        scaled(value, range) == 255 <==> value >= range,
{
    lemma_scaled_is_byte(value, range);
}

/// Scales `value` so that `range` maps to 255.
pub fn scale(value: u64, range: u64) -> (byte: u8)
    ensures
        byte == scaled(value as int, range as int),
{
    if range == 0 || value == 0 {
        return 0;
    }
    if value >= range {
        return FULL_SCALE;
    }
    let product: u128 = 255u128 * (value as u128);
    let quotient: u128 = product / (range as u128);
    proof {
        lemma_scaled_is_byte(value as int, range as int);
    }
    quotient as u8
}

/// Usage byte of a processor core from its current and previous counters.
pub fn cpu_usage(total: u64, idle: u64, last_total: u64, last_idle: u64) -> (byte: u8)
    ensures
        byte == cpu_usage_of(total as int, idle as int, last_total as int, last_idle as int),
{
    if total < last_total || idle < last_idle {
        return 0;
    }
    let relative_total: u64 = total - last_total;
    let relative_idle: u64 = idle - last_idle;
    let busy: u64 = if relative_idle > relative_total {
        0
    } else {
        relative_total - relative_idle
    };
    scale(busy, relative_total)
}

/// Throughput of one direction of a network interface, scaled by the largest
/// throughput seen so far.
#[derive(Clone, Copy, Debug, PartialEq, Eq, Structural)]
pub struct Throughput {
    /// The usage byte of this sample.
    pub usage: u8,
    /// The running maximum after this sample.
    pub max: u64,
}

/// The running maximum after a sample that moved the counter from `last` to
/// `current`.
pub open spec fn running_max_of(current: int, last: int, max: int) -> int {
    larger(max, delta(current, last))
}

/// Usage of a network direction: the bytes moved since the last sample as a
/// share of the running maximum, which the sample itself may raise.
pub open spec fn net_usage_of(current: int, last: int, max: int) -> int {
    scaled(delta(current, last), running_max_of(current, last, max))
}

/// Usage byte and new running maximum of one network direction.
pub fn net_usage(current: u64, last: u64, max: u64) -> (sample: Throughput)
    ensures
        sample.max == running_max_of(current as int, last as int, max as int),
        sample.usage == net_usage_of(current as int, last as int, max as int),
{
    let relative: u64 = if current < last {
        0
    } else {
        current - last
    };
    let new_max: u64 = if max < relative {
        relative
    } else {
        max
    };
    Throughput { usage: scale(relative, new_max), max: new_max }
}

/// Between two readings in which neither counter went backwards the usage is
/// a byte, it is zero when no time has passed, and where the idle time did not
/// grow by more than the total it is the busy share of the elapsed time.
pub proof fn lemma_cpu_usage_bounded(total: int, idle: int, last_total: int, last_idle: int)
    requires
        0 <= last_total <= total,
        0 <= last_idle <= idle,
    ensures
        0 <= cpu_usage_of(total, idle, last_total, last_idle) <= 255,
        total == last_total ==> cpu_usage_of(total, idle, last_total, last_idle) == 0,
        idle - last_idle <= total - last_total && total > last_total ==> cpu_usage_of(
            total,
            idle,
            last_total,
            last_idle,
        ) == 255 * ((total - last_total) - (idle - last_idle)) / (total - last_total),
{
    let elapsed = total - last_total;
    let busy = delta(elapsed, idle - last_idle);
    lemma_scaled_is_byte(busy, elapsed);
    if idle - last_idle <= elapsed && elapsed > 0 {
        lemma_scaled_is_quotient(busy, elapsed);
    }
}

/// The running maximum never falls, the sample never exceeds it, and the
/// usage byte is 255 exactly when a sample that moved at all equals the
/// running maximum it leaves behind.
pub proof fn lemma_net_usage_bounded(current: int, last: int, max: int)
    requires
        0 <= current,
        0 <= last,
        0 <= max,
    ensures
        running_max_of(current, last, max) >= max,
        delta(current, last) <= running_max_of(current, last, max),
        0 <= net_usage_of(current, last, max) <= 255,
        running_max_of(current, last, max) == 0 ==> net_usage_of(current, last, max) == 0,
        running_max_of(current, last, max) > 0 ==> net_usage_of(current, last, max) == 255
            * delta(current, last) / running_max_of(current, last, max),
        net_usage_of(current, last, max) == 255 <==> (delta(current, last) > 0 && delta(
            current,
            last,
        ) == running_max_of(current, last, max)),
{
    let relative = delta(current, last);
    let new_max = running_max_of(current, last, max);
    lemma_scaled_is_byte(relative, new_max);
    if new_max > 0 {
        lemma_scaled_is_quotient(relative, new_max);
        lemma_scaled_full_scale(relative, new_max);
    }
}

} // verus!
