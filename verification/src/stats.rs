//! The statistics aggregator: a pure projection from (elapsed time, total
//! bytes) to derived sizes, throughput and a duration breakdown.
//!
//! Time is carried in whole milliseconds and every derived quantity in
//! thousandths of its unit (a value of 1500 in `mbytes_per_sec_milli` is
//! 1.5 MB/s), so each figure is the floor of the exact rational value
//! scaled by 1000. Megabytes here are decimal: one million bytes.
//!
//! A zero elapsed time is a defined error, never an infinite or undefined
//! figure in a report.

use vstd::prelude::*;

use vstd::arithmetic::div_mod::lemma_div_denominator;
use vstd::arithmetic::div_mod::lemma_div_nonincreasing;
use vstd::arithmetic::div_mod::lemma_div_pos_is_pos;
use vstd::arithmetic::div_mod::lemma_fundamental_div_mod;

verus! {

/// The derived figures for one run, each scaled by 1000.
#[derive(Copy, Clone, Debug, PartialEq, Eq, Structural)]
pub struct Statistics {
    /// The elapsed time the figures were computed from.
    pub duration_millis: u64,
    /// The total bytes the figures were computed from.
    pub total_bytes: u64,
    /// Thousandths of a megabyte transferred: `bytes / 1000`.
    pub total_mbytes_milli: u64,
    /// Thousandths of a megabit transferred: `8 * bytes / 1000`.
    pub total_mbits_milli: u64,
    /// Thousandths of a gigabyte transferred: `bytes / 1_000_000`.
    pub total_gbytes_milli: u64,
    /// Thousandths of a gigabit transferred: `8 * bytes / 1_000_000`.
    pub total_gbits_milli: u64,
    /// Thousandths of a kilobyte per second: `1000 * bytes / millis`.
    pub kbytes_per_sec_milli: u64,
    /// Thousandths of a kilobit per second: `8000 * bytes / millis`.
    pub kbits_per_sec_milli: u64,
    /// Thousandths of a megabyte per second: `bytes / millis`.
    pub mbytes_per_sec_milli: u64,
    /// Thousandths of a megabit per second: `8 * bytes / millis`.
    pub mbits_per_sec_milli: u64,
    /// Thousandths of a gigabyte per second: `bytes / (1000 * millis)`.
    pub gbytes_per_sec_milli: u64,
    /// Thousandths of a gigabit per second: `8 * bytes / (1000 * millis)`.
    pub gbits_per_sec_milli: u64,
    /// Whole minutes of the duration.
    pub minutes: u64,
    /// Seconds of the duration beyond the whole minutes.
    pub seconds: u64,
}

/// Why statistics could not be computed.
#[derive(Copy, Clone, Debug, PartialEq, Eq, Structural)]
pub enum StatsError {
    /// The elapsed time was zero: throughput is undefined.
    ZeroDuration,
}

/// The byte bound under which every scaled figure fits in a `u64`: the
/// largest intermediate value is `8000 * bytes`.
pub open spec fn stats_bytes_bound() -> int {
    u64::MAX as int / 8000
}

/// Every figure, as the floor of the exact scaled value.
pub open spec fn spec_statistics(duration_millis: u64, total_bytes: u64) -> Statistics {
    let ms = duration_millis as int;
    let b = total_bytes as int;
    Statistics {
        duration_millis,
        total_bytes,
        total_mbytes_milli: (b / 1000) as u64,
        total_mbits_milli: (8 * b / 1000) as u64,
        total_gbytes_milli: (b / 1000000) as u64,
        total_gbits_milli: (8 * b / 1000000) as u64,
        kbytes_per_sec_milli: (1000 * b / ms) as u64,
        kbits_per_sec_milli: (8000 * b / ms) as u64,
        mbytes_per_sec_milli: (b / ms) as u64,
        mbits_per_sec_milli: (8 * b / ms) as u64,
        gbytes_per_sec_milli: (b / (1000 * ms)) as u64,
        gbits_per_sec_milli: (8 * b / (1000 * ms)) as u64,
        minutes: ((ms / 1000) / 60) as u64,
        seconds: ((ms / 1000) % 60) as u64,
    }
}

/// Compute the derived figures for a run, or the defined error when the
/// elapsed time is zero: success exactly on a positive duration.
pub fn calculate_statistics(duration_millis: u64, total_bytes: u64) -> (r: Result<
    Statistics,
    StatsError,
>)
    requires
        total_bytes <= stats_bytes_bound(),
    ensures
        r is Err <==> duration_millis == 0,
        r is Err ==> r == Result::<Statistics, StatsError>::Err(StatsError::ZeroDuration),
        r is Ok ==> r == Result::<Statistics, StatsError>::Ok(
            spec_statistics(duration_millis, total_bytes),
        ),
{
    if duration_millis == 0 {
        return Err(StatsError::ZeroDuration);
    }
    let ms = duration_millis;
    let b = total_bytes;
    let whole_secs = ms / 1000;
    let gbytes = (b / ms) / 1000;
    let gbits = (8 * b / ms) / 1000;
    proof {
        lemma_div_denominator(b as int, ms as int, 1000);
        lemma_div_denominator(8 * b as int, ms as int, 1000);
        assert(1000 * (ms as int) == (ms as int) * 1000) by (nonlinear_arith);
    }
    Ok(
        Statistics {
            duration_millis,
            total_bytes,
            total_mbytes_milli: b / 1000,
            total_mbits_milli: 8 * b / 1000,
            total_gbytes_milli: b / 1000000,
            total_gbits_milli: 8 * b / 1000000,
            kbytes_per_sec_milli: 1000 * b / ms,
            kbits_per_sec_milli: 8000 * b / ms,
            mbytes_per_sec_milli: b / ms,
            mbits_per_sec_milli: 8 * b / ms,
            gbytes_per_sec_milli: gbytes,
            gbits_per_sec_milli: gbits,
            minutes: whole_secs / 60,
            seconds: whole_secs % 60,
        },
    )
}

/// The unit systems agree with one another: gigabit figures are the
/// megabit figures divided by a thousand (and likewise for bytes), both
/// for totals and for throughput.
pub proof fn lemma_units_consistent(duration_millis: u64, total_bytes: u64)
    requires
        duration_millis > 0,
        total_bytes <= stats_bytes_bound(),
    ensures
        spec_statistics(duration_millis, total_bytes).gbits_per_sec_milli == spec_statistics(
            duration_millis,
            total_bytes,
        ).mbits_per_sec_milli / 1000,
        spec_statistics(duration_millis, total_bytes).gbytes_per_sec_milli == spec_statistics(
            duration_millis,
            total_bytes,
        ).mbytes_per_sec_milli / 1000,
        spec_statistics(duration_millis, total_bytes).total_gbits_milli == spec_statistics(
            duration_millis,
            total_bytes,
        ).total_mbits_milli / 1000,
        spec_statistics(duration_millis, total_bytes).total_gbytes_milli == spec_statistics(
            duration_millis,
            total_bytes,
        ).total_mbytes_milli / 1000,
{
    let ms = duration_millis as int;
    let b = total_bytes as int;
    lemma_div_denominator(b as int, ms, 1000);
    lemma_div_denominator(8 * b, ms, 1000);
    lemma_div_denominator(b as int, 1000, 1000);
    lemma_div_denominator(8 * b, 1000, 1000);
    assert(1000 * ms == ms * 1000) by (nonlinear_arith);
    lemma_div_nonincreasing(b, ms);
    lemma_div_nonincreasing(8 * b, ms);
    lemma_div_nonincreasing(b, 1000);
    lemma_div_nonincreasing(8 * b, 1000);
    lemma_div_pos_is_pos(b, ms);
    lemma_div_pos_is_pos(8 * b, ms);
    lemma_div_pos_is_pos(b, 1000);
    lemma_div_pos_is_pos(8 * b, 1000);
}

/// Round trip of the throughput figure: multiplying the megabytes-per-
/// second figure back by the duration recovers the byte count to within
/// one millisecond's worth of bytes. In exact units: `mbytes_per_sec_milli
/// * duration_millis` is megabytes-per-second times seconds times a
/// million, which is bytes.
pub proof fn lemma_throughput_round_trip(duration_millis: u64, total_bytes: u64)
    requires
        duration_millis > 0,
    ensures
        spec_statistics(duration_millis, total_bytes).mbytes_per_sec_milli * duration_millis
            <= total_bytes,
        total_bytes - spec_statistics(duration_millis, total_bytes).mbytes_per_sec_milli
            * duration_millis < duration_millis,
{
    let ms = duration_millis as int;
    let b = total_bytes as int;
    lemma_fundamental_div_mod(b, ms);
    assert(b == ms * (b / ms) + b % ms);
    assert(ms * (b / ms) == (b / ms) * ms) by (nonlinear_arith);
}

} // verus!
