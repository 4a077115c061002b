//! Per-iteration decisions of the two polling monitors.
//!
//! Each monitor's loop body splits into the outside work (invoking the
//! probe, opening the state file, the floating-point arithmetic on
//! field values) and a decision: whether this iteration writes, and
//! what state the monitor carries to the next iteration. The decisions
//! live here, verified; the loop around them performs the actions.

use crate::probe::{
    analog_reading, digital_reading, spec_analog_reading, spec_digital_reading,
};
use vstd::prelude::*;

verus! {

/// What one probe invocation came back with: a payload, or a failure to
/// run the probe at all.
pub enum ProbeOutcome {
    Payload(String),
    Failed,
}

/// A reading counts as the high signal exactly when it is the literal
/// string `1`.
pub open spec fn spec_is_high(reading: Seq<char>) -> bool {
    reading == "1"@
}

/// Whether a reading is the high signal.
pub fn is_high(reading: &String) -> (r: bool)
    ensures
        r == spec_is_high(reading@),
{
    let one: String = "1".to_owned();
    reading.eq(&one)
}

/// A rising edge: the current reading is high and the previous one,
/// absent on the first iteration, was not.
pub open spec fn spec_rising_edge(previous: Option<Seq<char>>, current: Seq<char>) -> bool {
    spec_is_high(current) && !(previous matches Some(p) && spec_is_high(p))
}

/// The digital monitor's edge memory: the raw reading of the previous
/// iteration, absent before the first.
pub struct EdgeDetector {
    previous: Option<String>,
}

impl EdgeDetector {
    /// The remembered previous reading.
    pub closed spec fn prev(&self) -> Option<Seq<char>> {
        match self.previous {
            Some(ref s) => Some(s@),
            None => None,
        }
    }

    /// A fresh detector: no reading seen yet, so the first high reading
    /// is itself a rising edge.
    pub fn new() -> (d: Self)
        ensures
            d.prev() is None,
    {
        EdgeDetector { previous: None }
    }

    /// Feed one reading: reports whether it is a rising edge, and
    /// remembers the reading unconditionally, even when the write that
    /// the edge calls for is skipped.
    pub fn observe(&mut self, current: String) -> (rising: bool)
        ensures
            rising == spec_rising_edge(old(self).prev(), current@),
            final (self).prev() == Some(current@),
    {
        let high_now = is_high(&current);
        let high_before = match &self.previous {
            Some(p) => is_high(p),
            None => false,
        };
        self.previous = Some(current);
        high_now && !high_before
    }

    /// One iteration of the digital monitor's decision: on a payload,
    /// the counter is to be incremented exactly on a rising edge of the
    /// extracted reading, and the reading is remembered; on a probe
    /// failure, nothing is written and the memory is kept, so detection
    /// resumes on the next iteration.
    pub fn step(&mut self, outcome: &ProbeOutcome) -> (increment: bool)
        ensures
            match outcome {
                ProbeOutcome::Payload(p) => increment == spec_rising_edge(
                    old(self).prev(),
                    spec_digital_reading(p@),
                ) && final (self).prev() == Some(spec_digital_reading(p@)),
                ProbeOutcome::Failed => increment == false && final (self).prev() == old(
                    self,
                ).prev(),
            },
    {
        match outcome {
            ProbeOutcome::Payload(p) => {
                let reading = digital_reading(p.as_str());
                self.observe(reading)
            },
            ProbeOutcome::Failed => false,
        }
    }
}

/// One iteration of the analog monitor's decision: on a payload, the
/// pressure is to be recomputed from the extracted reading, defaulting
/// to `"0"`, and written unconditionally; on a probe failure, nothing
/// is written and the previous pressure stands.
pub fn analog_step(outcome: &ProbeOutcome) -> (reading: Option<String>)
    ensures
        match outcome {
            ProbeOutcome::Payload(p) => (match reading {
                Some(s) => s@ == spec_analog_reading(p@),
                None => false,
            }),
            ProbeOutcome::Failed => reading is None,
        },
{
    match outcome {
        ProbeOutcome::Payload(p) => Some(analog_reading(p.as_str())),
        ProbeOutcome::Failed => None,
    }
}

/// The previous reading the detector holds before step `i` of a run
/// over `readings`: nothing before the first step, else the reading of
/// the step before.
pub open spec fn prev_before(readings: Seq<Seq<char>>, i: int) -> Option<Seq<char>>
    recommends
        0 <= i <= readings.len(),
{
    if i == 0 {
        None
    } else {
        Some(readings[i - 1])
    }
}

/// Whether step `i` of a run over `readings` increments the counter.
pub open spec fn increments_at(readings: Seq<Seq<char>>, i: int) -> bool
    recommends
        0 <= i < readings.len(),
{
    spec_rising_edge(prev_before(readings, i), readings[i])
}

/// Over any sequence of raw readings, the counter is incremented, by
/// one application of the shared scale, exactly on a transition from a
/// non-high (or absent) reading to the high one, and is left untouched
/// on high-after-high and on every non-high reading.
pub proof fn lemma_increment_exactly_on_rising_edge(readings: Seq<Seq<char>>, i: int)
    requires
        0 <= i < readings.len(),
    ensures
        increments_at(readings, i) <==> (spec_is_high(readings[i]) && !(i > 0 && spec_is_high(
            readings[i - 1],
        ))),
{
}

/// A payload that yields no reading is never read as a rising edge:
/// a probe failure or malformed payload leaves the counter unchanged.
pub proof fn lemma_malformed_payload_no_increment(
    previous: Option<Seq<char>>,
    payload: Seq<char>,
)
    requires
        crate::probe::json_string_value(payload) is None,
    ensures
        !spec_rising_edge(previous, spec_digital_reading(payload)),
{
    reveal_strlit("1");
    assert("1"@.len() == 1);
    assert(!spec_is_high(spec_digital_reading(payload)));
}

} // verus!
