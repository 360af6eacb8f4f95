use vstd::prelude::*;

verus! {

/// Default number of distance evaluations allowed for one ray.
pub const ITERATION_BUDGET: u32 = 100;

/// Where a distance estimate lies relative to the hit threshold and the
/// maximum travel distance.
#[derive(Clone, Copy, Debug, PartialEq, Eq, Structural)]
pub enum Reading {
    /// Strictly below the hit threshold: the ray touches a surface.
    Near,
    /// Strictly between the hit threshold and the maximum travel distance:
    /// the ray may step on.
    Between,
    /// Anything else (exactly at the threshold, at or past the maximum
    /// travel distance, or not a number): the ray stops without a hit.
    Beyond,
}

/// What the tracer does next.
#[derive(Clone, Copy, Debug, PartialEq, Eq, Structural)]
pub enum Move {
    /// Evaluate the distance at the current position, step along the ray by
    /// it, and report the reading of that distance.
    Probe,
    /// The ray is done; `hit` tells whether it reached a surface.
    Finish { hit: bool },
}

/// Decision state of one sphere-traced ray.
#[derive(Clone, Copy, Debug, PartialEq, Eq, Structural)]
pub struct Marcher {
    /// Most distance evaluations this ray may make.
    pub budget: u32,
    /// Distance evaluations made so far.
    pub probes: u32,
    /// Reading of the newest distance.
    pub last: Reading,
}

impl Marcher {
    /// A fresh ray: no probe made, and a starting distance that lies between
    /// the threshold and the maximum travel distance, so the first move probes
    /// whenever the budget allows one.
    pub open spec fn start(budget: u32) -> Marcher {
        Marcher { budget, probes: 0, last: Reading::Between }
    }

    pub open spec fn wf(self) -> bool {
        self.probes <= self.budget
    }

    /// The ray steps on while its distance lies between the bounds and a probe
    /// is left in the budget. Once it stops, the newest distance alone says
    /// whether it hit, whichever bound ended the march.
    pub open spec fn move_spec(self) -> Move {
        if self.last == Reading::Between && self.probes < self.budget {
            Move::Probe
        } else {
            Move::Finish { hit: self.last == Reading::Near }
        }
    }

    /// State after a probe whose distance gave `reading`.
    pub open spec fn after(self, reading: Reading) -> Marcher {
        Marcher { budget: self.budget, probes: (self.probes + 1) as u32, last: reading }
    }

    pub fn new(budget: u32) -> (r: Marcher)
        ensures
            r == Marcher::start(budget),
            r.wf(),
    {
        Marcher { budget, probes: 0, last: Reading::Between }
    }

    pub fn next_move(&self) -> (r: Move)
        ensures
            r == self.move_spec(),
    {
        if self.last == Reading::Between && self.probes < self.budget {
            Move::Probe
        } else {
            Move::Finish { hit: self.last == Reading::Near }
        }
    }

    /// Records the reading of the distance that the last probe computed.
    pub fn record(&mut self, reading: Reading)
        requires
            old(self).move_spec() == Move::Probe,
        ensures
            *final(self) == old(self).after(reading),
            old(self).wf() ==> final(self).wf(),
    {
        self.probes = self.probes + 1;
        self.last = reading;
    }
}

/// The state a ray reaches when its probes give `readings` in turn; readings
/// left over once the ray has finished are not consumed.
pub open spec fn run(m: Marcher, readings: Seq<Reading>) -> Marcher
    decreases readings.len(),
{
    if readings.len() == 0 || m.move_spec() != Move::Probe {
        m
    } else {
        run(m.after(readings[0]), readings.drop_first())
    }
}

proof fn lemma_run_keeps_wf(m: Marcher, readings: Seq<Reading>)
    requires
        m.wf(),
    ensures
        run(m, readings).wf(),
        run(m, readings).budget == m.budget,
    decreases readings.len(),
{
    if readings.len() > 0 && m.move_spec() == Move::Probe {
        lemma_run_keeps_wf(m.after(readings[0]), readings.drop_first());
    }
}

/// Whatever distances a ray meets, it never makes more probes than its budget.
pub proof fn lemma_probes_within_budget(budget: u32, readings: Seq<Reading>)
    ensures
        run(Marcher::start(budget), readings).probes <= budget,
{
    lemma_run_keeps_wf(Marcher::start(budget), readings);
}

proof fn lemma_run_hit_needs_near(m: Marcher, readings: Seq<Reading>)
    requires
        m.last != Reading::Near,
        !readings.contains(Reading::Near),
    ensures
        run(m, readings).last != Reading::Near,
    decreases readings.len(),
{
    if readings.len() > 0 && m.move_spec() == Move::Probe {
        assert(readings[0] != Reading::Near) by {
            if readings[0] == Reading::Near {
                assert(readings.contains(Reading::Near));
            }
        }
        let rest = readings.drop_first();
        assert(!rest.contains(Reading::Near)) by {
            if rest.contains(Reading::Near) {
                let i = choose|i: int| 0 <= i < rest.len() && rest[i] == Reading::Near;
                assert(readings[i + 1] == Reading::Near);
            }
        }
        lemma_run_hit_needs_near(m.after(readings[0]), rest);
    }
}

/// A ray whose distances never fall below the hit threshold never reports a hit.
pub proof fn lemma_no_hit_without_near(budget: u32, readings: Seq<Reading>)
    requires
        !readings.contains(Reading::Near),
    ensures
        run(Marcher::start(budget), readings).move_spec() != (Move::Finish { hit: true }),
{
    lemma_run_hit_needs_near(Marcher::start(budget), readings);
}

proof fn lemma_run_open_space(m: Marcher, readings: Seq<Reading>)
    requires
        m.wf(),
        m.last == Reading::Between,
        readings.len() >= m.budget - m.probes,
        forall|i: int| 0 <= i < readings.len() ==> readings[i] == Reading::Between,
    ensures
        run(m, readings).probes == m.budget,
        run(m, readings).last == Reading::Between,
    decreases readings.len(),
{
    if m.probes < m.budget {
        let rest = readings.drop_first();
        assert forall|i: int| 0 <= i < rest.len() implies rest[i] == Reading::Between by {
            assert(rest[i] == readings[i + 1]);
        }
        lemma_run_open_space(m.after(readings[0]), rest);
    }
}

/// A ray whose distances all stay between the bounds uses up its whole budget
/// and then finishes without a hit.
pub proof fn lemma_open_space_exhausts_budget(budget: u32, readings: Seq<Reading>)
    requires
        readings.len() >= budget,
        forall|i: int| 0 <= i < readings.len() ==> readings[i] == Reading::Between,
    ensures
        run(Marcher::start(budget), readings).probes == budget,
        run(Marcher::start(budget), readings).move_spec() == (Move::Finish { hit: false }),
{
    lemma_run_open_space(Marcher::start(budget), readings);
    lemma_run_keeps_wf(Marcher::start(budget), readings);
}

} // verus!
