//! The schedule of the evening reflection: the clock is looked at again and
//! again, and each scheduled run is attempted once.

use vstd::prelude::*;

use crate::text::same;

use super::{due, Cycle, CycleView, LocalClock, Reflector};

verus! {

/// What follows a look at the clock.
#[derive(Debug, Clone, Copy, PartialEq, Eq, Structural)]
pub enum Tick {
    /// The reflection is switched off: the schedule ends.
    Stop,
    /// The digest runs; then the clock is looked at again.
    Run,
    /// Nothing is to be done until the clock is looked at again.
    Wait,
}

/// The schedule: it knows the run that was attempted last.
#[derive(Debug)]
pub struct Scheduler {
    attempted: Option<Cycle>,
}

impl View for Scheduler {
    type V = Option<CycleView>;

    closed spec fn view(&self) -> Option<CycleView> {
        crate::fields::opt_view(self.attempted)
    }
}

/// What follows a look at the clock, and the run that was attempted last after
/// it. The run that is due is attempted unless it was the last one.
pub open spec fn ticked(
    attempted: Option<CycleView>,
    enabled: bool,
    due: Option<CycleView>,
) -> (Tick, Option<CycleView>) {
    if !enabled {
        (Tick::Stop, attempted)
    } else if due is Some && due != attempted {
        (Tick::Run, due)
    } else {
        (Tick::Wait, attempted)
    }
}

impl Scheduler {
    /// A schedule that has attempted nothing.
    pub fn new() -> (r: Scheduler)
        ensures
            r@ is None,
    {
        Scheduler { attempted: None }
    }

    /// A look at the clock. A run counts as attempted from here on, whether or
    /// not it succeeds.
    pub fn tick(
        &mut self,
        reflector: &Reflector,
        now: u64,
        last_run: u64,
        clock: LocalClock,
    ) -> (r: Tick)
        requires
            super::signed(now) >= i64::MIN + 86400,
        ensures
            (r, final(self)@) == ticked(
                old(self)@,
                reflector.enabled,
                due(*reflector, now, last_run, clock),
            ),
    {
        if !reflector.enabled {
            return Tick::Stop;
        }
        let cycle: Cycle = match reflector.due_cycle(now, last_run, clock) {
            Some(cycle) => cycle,
            None => {
                return Tick::Wait;
            },
        };
        let again: bool = match &self.attempted {
            Some(last) => same(last.date.as_str(), cycle.date.as_str()) && last.minutes
                == cycle.minutes,
            None => false,
        };
        if again {
            return Tick::Wait;
        }
        self.attempted = Some(cycle);
        Tick::Run
    }
}

/// The run that was attempted last after some looks at the clock, given the runs
/// that were due.
pub open spec fn attempted_after(enabled: bool, dues: Seq<Option<CycleView>>) -> Option<CycleView>
    decreases dues.len(),
{
    if dues.len() == 0 {
        None
    } else {
        ticked(attempted_after(enabled, dues.drop_last()), enabled, dues.last()).1
    }
}

/// What follows the look at the clock at `i`.
pub open spec fn tick_at(enabled: bool, dues: Seq<Option<CycleView>>, i: int) -> Tick {
    ticked(attempted_after(enabled, dues.take(i)), enabled, dues[i]).0
}

/// Whether a run may be due after another: it does not come before it.
pub open spec fn may_follow(a: Option<CycleView>, b: Option<CycleView>) -> bool {
    match (a, b) {
        (Some(a), Some(b)) => !super::cycle_before(b, a),
        _ => true,
    }
}

/// Whether the clock never goes back behind a run that was due.
pub open spec fn goes_forward(dues: Seq<Option<CycleView>>) -> bool {
    forall|i: int, j: int|
        0 <= i < j < dues.len() ==> may_follow(#[trigger] dues[i], #[trigger] dues[j])
}

/// Every scheduled run is attempted at most once, whether or not it succeeds: no
/// two looks at a clock that does not go back start the same run.
pub proof fn cycle_is_attempted_once(
    enabled: bool,
    dues: Seq<Option<CycleView>>,
    i: int,
    j: int,
)
    requires
        0 <= i < j < dues.len(),
        goes_forward(dues),
        tick_at(enabled, dues, i) == Tick::Run,
        tick_at(enabled, dues, j) == Tick::Run,
    ensures
        dues[i] != dues[j],
{
    if dues[i] == dues[j] {
        lemma_remembered(enabled, dues, i, j, j);
    }
}

/// The run that was attempted at `i` stays the last one up to `k`, as long as it
/// is due again at `j`.
proof fn lemma_remembered(
    enabled: bool,
    dues: Seq<Option<CycleView>>,
    i: int,
    j: int,
    k: int,
)
    requires
        0 <= i < k <= j < dues.len(),
        goes_forward(dues),
        tick_at(enabled, dues, i) == Tick::Run,
        dues[i] == dues[j],
    ensures
        attempted_after(enabled, dues.take(k)) == dues[i],
    decreases k,
{
    assert(dues.take(k).drop_last() =~= dues.take(k - 1));
    assert(dues.take(k).last() == dues[k - 1]);
    if k - 1 > i {
        lemma_remembered(enabled, dues, i, j, k - 1);
        assert(may_follow(dues[i], dues[k - 1]));
        assert(may_follow(dues[k - 1], dues[j]));
        if let (Some(c), Some(d)) = (dues[i], dues[k - 1]) {
            crate::text::lemma_lex_total(c.date, d.date);
            assert(c =~= d);
        }
    }
}

/// A schedule ends at once where the reflection is switched off, and only there.
pub proof fn disabled_schedule_ends(
    attempted: Option<CycleView>,
    enabled: bool,
    due: Option<CycleView>,
)
    ensures
        ticked(attempted, enabled, due).0 == Tick::Stop <==> !enabled,
{
}

/// A run that is due is started, unless it was attempted already; what was
/// attempted is remembered.
pub proof fn due_run_is_started(attempted: Option<CycleView>, due: CycleView)
    ensures
        attempted != Some(due) ==> ticked(attempted, true, Some(due)) == (Tick::Run, Some(due)),
        attempted == Some(due) ==> ticked(attempted, true, Some(due)) == (Tick::Wait, attempted),
        ticked(attempted, true, None) == (Tick::Wait, attempted),
{
}

} // verus!
