//! The delta engine: time-normalized rate, latency and utilization
//! metrics for one instance, from its current counters, the counters of
//! the previous sample, and the elapsed time between them.
//!
//! Every metric is an exact rational number: raw counter deltas over a
//! positive time base, never rounded inside the library. A zero or
//! negative elapsed interval is a defect state (clock skew or a
//! zero-length interval) and yields all-zero metrics for the instance
//! rather than propagating division by zero.

use vstd::prelude::*;

use crate::stats::Stats;

verus! {

/// Nanoseconds per second.
pub const NANOSEC: i128 = 1_000_000_000;

/// Byte-rate unit divisor: kilobytes or megabytes per second.
#[derive(PartialEq, Eq, Structural, Clone, Copy, Debug)]
pub enum Scale {
    KB,
    MB,
}

/// The divisor a scale selects.
pub open spec fn scale_divisor(scale: Scale) -> int {
    match scale {
        Scale::KB => 1024,
        Scale::MB => 1048576,
    }
}

/// An exact rational value; the denominator is always positive, so the
/// value is finite and well defined.
#[derive(PartialEq, Eq, Structural, Clone, Copy, Debug)]
pub struct Ratio {
    pub num: i128,
    pub den: i128,
}

impl Ratio {
    /// Exactly zero.
    pub open spec fn zero_spec() -> Ratio {
        Ratio { num: 0, den: 1 }
    }

    /// A well-formed ratio has a positive denominator.
    pub open spec fn wf(self) -> bool {
        self.den > 0
    }

    /// This ratio has exactly the numerator `n` and denominator `d`.
    pub open spec fn is_frac(self, n: int, d: int) -> bool {
        self.num == n && self.den == d
    }
}

/// The twelve derived values for one visible instance, recomputed every
/// interval: rates per second, queue depths, per-operation latencies,
/// busy percentages and throttle-delay figures.
#[derive(PartialEq, Eq, Structural, Clone, Copy, Debug)]
pub struct DerivedMetrics {
    /// Read operations per second.
    pub reads_per_sec: Ratio,
    /// Write operations per second.
    pub writes_per_sec: Ratio,
    /// Bytes read per second, in the selected unit (KiB or MiB).
    pub kb_read_per_sec: Ratio,
    /// Bytes written per second, in the selected unit (KiB or MiB).
    pub kb_written_per_sec: Ratio,
    /// Time-averaged number of outstanding read operations.
    pub read_queue_depth: Ratio,
    /// Time-averaged number of outstanding write operations.
    pub write_queue_depth: Ratio,
    /// Average read latency, in microseconds.
    pub read_latency_us: Ratio,
    /// Average write latency, in microseconds.
    pub write_latency_us: Ratio,
    /// Percent of time a read operation is pending.
    pub read_busy_pct: Ratio,
    /// Percent of time a write operation is pending.
    pub write_busy_pct: Ratio,
    /// Operations per second delayed by the I/O throttle.
    pub delay_ops_per_sec: Ratio,
    /// Average throttle delay per delayed operation, in nanoseconds.
    pub delay_latency: Ratio,
}

/// All twelve metrics exactly zero.
pub open spec fn zero_metrics() -> DerivedMetrics {
    DerivedMetrics {
        reads_per_sec: Ratio::zero_spec(),
        writes_per_sec: Ratio::zero_spec(),
        kb_read_per_sec: Ratio::zero_spec(),
        kb_written_per_sec: Ratio::zero_spec(),
        read_queue_depth: Ratio::zero_spec(),
        write_queue_depth: Ratio::zero_spec(),
        read_latency_us: Ratio::zero_spec(),
        write_latency_us: Ratio::zero_spec(),
        read_busy_pct: Ratio::zero_spec(),
        write_busy_pct: Ratio::zero_spec(),
        delay_ops_per_sec: Ratio::zero_spec(),
        delay_latency: Ratio::zero_spec(),
    }
}

/// The documented formulas, stated over the raw counters. `cs` is the
/// current sample, `ps` the previous one (all zero when no previous
/// sample exists), `e` the elapsed time in nanoseconds. With
/// Δx = cs.x - ps.x and e > 0:
///
/// - rates per second are Δx·10⁹ / e (the delta over e seconds);
/// - byte rates further divide by the unit divisor;
/// - queue depths are Δ(r|w)lentime / e (nanoseconds of residency over
///   nanoseconds of interval);
/// - latency is residency per operation, Δrlentime / (Δreads·1000)
///   microseconds, and exactly zero when the throughput is not positive;
/// - busy percentages are Δ(r|w)time·100 / e;
/// - the throttle delay latency is Δdelay_time / Δdelay_cnt nanoseconds
///   per delayed operation, and exactly zero when Δdelay_cnt is not
///   positive, whatever Δdelay_time is.
///
/// When e ≤ 0 every metric is exactly zero.
pub open spec fn metrics_match(cs: Stats, ps: Stats, e: int, scale: Scale, m: DerivedMetrics) -> bool {
    if e <= 0 {
        m == zero_metrics()
    } else {
        &&& m.reads_per_sec.is_frac((cs.reads - ps.reads) * 1_000_000_000, e)
        &&& m.writes_per_sec.is_frac((cs.writes - ps.writes) * 1_000_000_000, e)
        &&& m.kb_read_per_sec.is_frac((cs.nread - ps.nread) * 1_000_000_000, e * scale_divisor(scale))
        &&& m.kb_written_per_sec.is_frac((cs.nwritten - ps.nwritten) * 1_000_000_000, e * scale_divisor(scale))
        &&& m.read_queue_depth.is_frac(cs.rlentime - ps.rlentime, e)
        &&& m.write_queue_depth.is_frac(cs.wlentime - ps.wlentime, e)
        &&& (if cs.reads > ps.reads {
            m.read_latency_us.is_frac(cs.rlentime - ps.rlentime, (cs.reads - ps.reads) * 1000)
        } else {
            m.read_latency_us == Ratio::zero_spec()
        })
        &&& (if cs.writes > ps.writes {
            m.write_latency_us.is_frac(cs.wlentime - ps.wlentime, (cs.writes - ps.writes) * 1000)
        } else {
            m.write_latency_us == Ratio::zero_spec()
        })
        &&& m.read_busy_pct.is_frac((cs.rtime - ps.rtime) * 100, e)
        &&& m.write_busy_pct.is_frac((cs.wtime - ps.wtime) * 100, e)
        &&& m.delay_ops_per_sec.is_frac((cs.delay_cnt - ps.delay_cnt) * 1_000_000_000, e)
        &&& (if cs.delay_cnt > ps.delay_cnt {
            m.delay_latency.is_frac(cs.delay_time - ps.delay_time, cs.delay_cnt - ps.delay_cnt)
        } else {
            m.delay_latency == Ratio::zero_spec()
        })
    }
}

/// Every metric is a well-formed ratio: a positive denominator, so no
/// metric is ever undefined (the exact analogue of "never NaN or
/// infinite").
pub open spec fn metrics_wf(m: DerivedMetrics) -> bool {
    &&& m.reads_per_sec.wf()
    &&& m.writes_per_sec.wf()
    &&& m.kb_read_per_sec.wf()
    &&& m.kb_written_per_sec.wf()
    &&& m.read_queue_depth.wf()
    &&& m.write_queue_depth.wf()
    &&& m.read_latency_us.wf()
    &&& m.write_latency_us.wf()
    &&& m.read_busy_pct.wf()
    &&& m.write_busy_pct.wf()
    &&& m.delay_ops_per_sec.wf()
    &&& m.delay_latency.wf()
}

/// The elapsed time base, in nanoseconds. With a previous sample whose
/// snapshot time is nonzero, the distance between the two snapshot
/// times; otherwise (first interval) the distance from the instance's
/// creation to its snapshot time, reporting cumulative activity
/// normalized over the instance's whole lifetime so far.
pub open spec fn elapsed_spec(sampled_at: i64, created_at: i64, prev_sampled_at: Option<i64>) -> int {
    match prev_sampled_at {
        Option::Some(p) => if p != 0 {
            sampled_at - p
        } else {
            sampled_at - created_at
        },
        Option::None => sampled_at - created_at,
    }
}

/// Compute the elapsed time base for one instance.
pub fn elapsed_ns(sampled_at: i64, created_at: i64, prev_sampled_at: Option<i64>) -> (e: i128)
    ensures
        e == elapsed_spec(sampled_at, created_at, prev_sampled_at),
{
    match prev_sampled_at {
        Some(p) => if p != 0 {
            sampled_at as i128 - p as i128
        } else {
            sampled_at as i128 - created_at as i128
        },
        None => sampled_at as i128 - created_at as i128,
    }
}

/// Compute the twelve derived metrics for one instance from its current
/// and previous counters and the elapsed nanoseconds between them.
/// Every metric follows the documented formula exactly; a non-positive
/// elapsed interval yields all-zero metrics for this instance alone
/// rather than aborting the tick.
pub fn compute_metrics(stats: &Stats, old_stats: &Stats, elapsed: i128, scale: Scale) -> (m: DerivedMetrics)
    requires
        elapsed <= 0xFFFF_FFFF_FFFF_FFFFi128,
    ensures
        metrics_match(*stats, *old_stats, elapsed as int, scale, m),
        metrics_wf(m),
{
    let zero = Ratio { num: 0, den: 1 };
    if elapsed <= 0 {
        return DerivedMetrics {
            reads_per_sec: zero,
            writes_per_sec: zero,
            kb_read_per_sec: zero,
            kb_written_per_sec: zero,
            read_queue_depth: zero,
            write_queue_depth: zero,
            read_latency_us: zero,
            write_latency_us: zero,
            read_busy_pct: zero,
            write_busy_pct: zero,
            delay_ops_per_sec: zero,
            delay_latency: zero,
        };
    }
    let d_reads: i128 = stats.reads as i128 - old_stats.reads as i128;
    let d_writes: i128 = stats.writes as i128 - old_stats.writes as i128;
    let d_nread: i128 = stats.nread as i128 - old_stats.nread as i128;
    let d_nwritten: i128 = stats.nwritten as i128 - old_stats.nwritten as i128;
    let d_rtime: i128 = stats.rtime as i128 - old_stats.rtime as i128;
    let d_wtime: i128 = stats.wtime as i128 - old_stats.wtime as i128;
    let d_rlentime: i128 = stats.rlentime as i128 - old_stats.rlentime as i128;
    let d_wlentime: i128 = stats.wlentime as i128 - old_stats.wlentime as i128;
    let d_delay_cnt: i128 = stats.delay_cnt as i128 - old_stats.delay_cnt as i128;
    let d_delay_time: i128 = stats.delay_time as i128 - old_stats.delay_time as i128;
    let byte_den: i128 = match scale {
        Scale::KB => elapsed * 1024,
        Scale::MB => elapsed * 1048576,
    };
    DerivedMetrics {
        reads_per_sec: Ratio { num: d_reads * NANOSEC, den: elapsed },
        writes_per_sec: Ratio { num: d_writes * NANOSEC, den: elapsed },
        kb_read_per_sec: Ratio { num: d_nread * NANOSEC, den: byte_den },
        kb_written_per_sec: Ratio { num: d_nwritten * NANOSEC, den: byte_den },
        read_queue_depth: Ratio { num: d_rlentime, den: elapsed },
        write_queue_depth: Ratio { num: d_wlentime, den: elapsed },
        read_latency_us: if d_reads > 0 {
            Ratio { num: d_rlentime, den: d_reads * 1000 }
        } else {
            zero
        },
        write_latency_us: if d_writes > 0 {
            Ratio { num: d_wlentime, den: d_writes * 1000 }
        } else {
            zero
        },
        read_busy_pct: Ratio { num: d_rtime * 100, den: elapsed },
        write_busy_pct: Ratio { num: d_wtime * 100, den: elapsed },
        delay_ops_per_sec: Ratio { num: d_delay_cnt * NANOSEC, den: elapsed },
        delay_latency: if d_delay_cnt > 0 {
            Ratio { num: d_delay_time, den: d_delay_cnt }
        } else {
            zero
        },
    }
}

} // verus!
