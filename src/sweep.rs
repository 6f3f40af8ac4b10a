use vstd::prelude::*;
use crate::decimal::{parse_u32, parse_u32_spec};

verus! {

/// The fleet size for one raw scale factor: the base node count times the
/// factor, when the factor is a positive integer and the product fits a `u32`.
pub open spec fn fleet_size_spec(base: u32, raw: Seq<char>) -> Option<u32> {
    match parse_u32_spec(raw) {
        Some(f) => if f > 0 && base as int * f as int <= u32::MAX as int {
            Some((base * f) as u32)
        } else {
            None
        },
        None => None,
    }
}

/// Computes the fleet size for one raw scale factor (see `fleet_size_spec`).
pub fn fleet_size(base: u32, raw: &str) -> (r: Option<u32>)
    ensures
        r == fleet_size_spec(base, raw@),
{
    match parse_u32(raw) {
        Some(f) => {
            assert((base as u64) * (f as u64) <= (u32::MAX as u64) * (u32::MAX as u64))
                by (nonlinear_arith)
                requires
                    base <= u32::MAX,
                    f <= u32::MAX,
            ;
            if f > 0 && base as u64 * f as u64 <= u32::MAX as u64 {
                Some(base * f)
            } else {
                None
            }
        },
        None => None,
    }
}

/// What the sweep asks its driver to do next.
#[derive(PartialEq, Eq, Structural, Debug, Clone, Copy)]
pub enum SweepStep {
    /// Run one iteration on a fleet of this many nodes.
    Run { fleet_size: u32 },
    /// The scale factor at this position is malformed: report it and go on.
    Skip { position: usize },
    /// The sweep is over: every factor was taken, or cancellation was seen.
    Stop,
}

/// A sweep over a list of raw scale factors. Each factor is taken once, in
/// order; cancellation is observed only between iterations.
pub struct Sweep {
    base: u32,
    factors: Vec<String>,
    next: usize,
    halted: bool,
}

impl Sweep {
    /// The base node count.
    pub closed spec fn base(&self) -> u32 {
        self.base
    }

    /// The raw scale factors, in order.
    pub closed spec fn factors(&self) -> Seq<Seq<char>> {
        self.factors@.map_values(|s: String| s@)
    }

    /// How many factors have been taken.
    pub closed spec fn position(&self) -> nat {
        self.next as nat
    }

    /// Whether cancellation has been observed.
    pub closed spec fn halted(&self) -> bool {
        self.halted
    }

    /// Well-formedness: the position never passes the end of the list.
    pub closed spec fn wf(&self) -> bool {
        self.next <= self.factors.len()
    }

    /// Starts a sweep; nothing is taken and no cancellation is seen yet.
    pub fn new(base: u32, factors: Vec<String>) -> (r: Sweep)
        ensures
            r.wf(),
            r.base() == base,
            r.factors() == factors@.map_values(|s: String| s@),
            r.position() == 0,
            !r.halted(),
    {
        Sweep { base, factors, next: 0, halted: false }
    }

    /// Takes the next factor. Once cancellation has been observed, or every
    /// factor was taken, it answers `Stop` and changes nothing.
    pub fn next_step(&mut self) -> (r: SweepStep)
        requires
            old(self).wf(),
        ensures
            final(self).wf(),
            final(self).base() == old(self).base(),
            final(self).factors() == old(self).factors(),
            final(self).halted() == old(self).halted(),
            old(self).halted() || old(self).position() >= old(self).factors().len() ==> {
                &&& r == SweepStep::Stop
                &&& final(self).position() == old(self).position()
            },
            !old(self).halted() && old(self).position() < old(self).factors().len() ==> {
                &&& final(self).position() == old(self).position() + 1
                &&& r == match fleet_size_spec(
                    old(self).base(),
                    old(self).factors()[old(self).position() as int],
                ) {
                    Some(n) => SweepStep::Run { fleet_size: n },
                    None => SweepStep::Skip { position: old(self).position() as usize },
                }
            },
    {
        if self.halted || self.next >= self.factors.len() {
            return SweepStep::Stop;
        }
        let pos = self.next;
        let step = match fleet_size(self.base, self.factors[pos].as_str()) {
            Some(n) => SweepStep::Run { fleet_size: n },
            None => SweepStep::Skip { position: pos },
        };
        self.next = pos + 1;
        step
    }

    /// Records, at an iteration boundary, whether cancellation was requested.
    /// Once seen, it is never forgotten.
    pub fn end_iteration(&mut self, cancelled: bool)
        requires
            old(self).wf(),
        ensures
            final(self).wf(),
            final(self).base() == old(self).base(),
            final(self).factors() == old(self).factors(),
            final(self).position() == old(self).position(),
            final(self).halted() == (old(self).halted() || cancelled),
    {
        self.halted = self.halted || cancelled;
    }
}

} // verus!
