//! Phase timing for a benchmark run.
//!
//! Generation and persistence are timed separately. A `Stopwatch` clamps
//! raw clock readings so that later readings never fall below earlier ones,
//! and `BenchmarkResult::from_measurements` raises the overall span to at
//! least each phase, so the returned durations always satisfy
//! `total >= write` and `total >= gen`.

use vstd::prelude::*;

verus! {

#[verifier::external_type_specification]
#[verifier::external_body]
pub struct ExInstant(std::time::Instant);

/// Relies on `std::time::Instant::now` for an opaque reference point.
#[verifier::external_body]
fn instant_now() -> std::time::Instant {
    std::time::Instant::now()
}

/// Relies on `std::time::Instant::elapsed` and `Duration::as_micros`: the
/// time since `start`, in microseconds. Nothing is assumed of the value.
#[verifier::external_body]
fn micros_since(start: &std::time::Instant) -> u64 {
    start.elapsed().as_micros() as u64
}

/// A stopwatch whose readings never decrease: each raw clock reading is
/// clamped to the largest reading handed out so far.
pub struct Stopwatch {
    start: std::time::Instant,
    last_micros: u64,
}

impl Stopwatch {
    /// The largest reading handed out so far.
    pub closed spec fn last(self) -> u64 {
        self.last_micros
    }

    pub fn begin() -> (s: Stopwatch)
        ensures
            s.last() == 0,
    {
        Stopwatch { start: instant_now(), last_micros: 0 }
    }

    /// The time since `begin`, in microseconds; never less than any earlier
    /// reading of the same stopwatch.
    pub fn elapsed_micros(&mut self) -> (r: u64)
        ensures
            r >= old(self).last(),
            final(self).last() == r,
    {
        let raw = micros_since(&self.start);
        if raw > self.last_micros {
            self.last_micros = raw;
        }
        self.last_micros
    }
}

/// The timing of one benchmark run, in microseconds.
#[derive(Clone, Copy, Debug, PartialEq, Eq, Structural)]
pub struct BenchmarkResult {
    /// Time spent generating the records in memory.
    pub gen_time_micros: u64,
    /// Time spent writing them out, flush included.
    pub write_time_micros: u64,
    /// The span of the whole run; never below either phase.
    pub total_time_micros: u64,
}

impl BenchmarkResult {
    /// Assemble a result from the two phase durations and the measured
    /// overall span. The total is the span, raised where needed so that it
    /// is never below either phase; every duration is nonnegative by type.
    pub fn from_measurements(gen_micros: u64, write_micros: u64, span_micros: u64) -> (r:
        BenchmarkResult)
        ensures
            r.gen_time_micros == gen_micros,
            r.write_time_micros == write_micros,
            r.total_time_micros >= gen_micros,
            r.total_time_micros >= write_micros,
            r.total_time_micros == if span_micros >= gen_micros && span_micros >= write_micros {
                span_micros
            } else if gen_micros >= write_micros {
                gen_micros
            } else {
                write_micros
            },
    {
        let mut total = span_micros;
        if total < gen_micros {
            total = gen_micros;
        }
        if total < write_micros {
            total = write_micros;
        }
        BenchmarkResult {
            gen_time_micros: gen_micros,
            write_time_micros: write_micros,
            total_time_micros: total,
        }
    }
}

} // verus!
