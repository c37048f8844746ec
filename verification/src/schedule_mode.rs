//! A task that is run again and again.
use vstd::prelude::*;

verus! {

/// How a task is repeated.
#[derive(Clone, Copy, Debug)]
pub struct ScheduleOptions {
    /// The time between two runs.
    pub interval_secs: u64,
    /// The number of runs; without it there is no end.
    pub max_runs: Option<usize>,
}

/// How far a schedule has come.
#[derive(Clone, Copy, Debug, PartialEq, Eq, Structural)]
pub enum SchedulePhase {
    /// A run is due.
    Due,
    /// A run is over.
    Ran,
    /// There are no more runs.
    Over,
}

/// What is done next.
#[derive(Clone, Copy, Debug, PartialEq, Eq, Structural)]
pub enum ScheduleAction {
    /// Run the task.
    Run,
    /// Wait so many seconds.
    Wait(u64),
    /// Stop.
    Stop,
}

/// The runs so far.
pub struct Schedule {
    pub opts: ScheduleOptions,
    pub runs: usize,
    pub phase: SchedulePhase,
}

#[verifier::ext_equal]
pub struct ScheduleView {
    pub opts: ScheduleOptions,
    pub runs: nat,
    pub phase: SchedulePhase,
}

impl View for Schedule {
    type V = ScheduleView;

    open spec fn view(&self) -> ScheduleView {
        ScheduleView { opts: self.opts, runs: self.runs as nat, phase: self.phase }
    }
}

/// Whether another run follows after `runs` of them.
pub open spec fn goes_on(opts: ScheduleOptions, runs: nat) -> bool {
    match opts.max_runs {
        Some(max) => runs < max,
        None => true,
    }
}

/// A schedule of which nothing was done yet: the first run is due at once.
pub open spec fn planned(opts: ScheduleOptions) -> ScheduleView {
    ScheduleView { opts, runs: 0, phase: SchedulePhase::Due }
}

/// What is done next, and the schedule after it.
pub open spec fn scheduled(s: ScheduleView) -> (ScheduleView, ScheduleAction) {
    match s.phase {
        SchedulePhase::Due => (
            ScheduleView { runs: s.runs + 1, phase: SchedulePhase::Ran, ..s },
            ScheduleAction::Run,
        ),
        SchedulePhase::Ran => if goes_on(s.opts, s.runs) {
            (
                ScheduleView { phase: SchedulePhase::Due, ..s },
                ScheduleAction::Wait(s.opts.interval_secs),
            )
        } else {
            (ScheduleView { phase: SchedulePhase::Over, ..s }, ScheduleAction::Stop)
        },
        SchedulePhase::Over => (s, ScheduleAction::Stop),
    }
}

impl Schedule {
    /// Nothing was run yet.
    pub fn new(opts: ScheduleOptions) -> (r: Schedule)
        ensures
            r@ == planned(opts),
    {
        Schedule { opts, runs: 0, phase: SchedulePhase::Due }
    }

    /// What is done next, once what was to be done before is done.
    pub fn next_action(&mut self) -> (r: ScheduleAction)
        requires
            old(self)@.phase == SchedulePhase::Due ==> old(self)@.runs < usize::MAX,
        ensures
            (final(self)@, r) == scheduled(old(self)@),
    {
        match self.phase {
            SchedulePhase::Due => {
                self.runs = self.runs + 1;
                self.phase = SchedulePhase::Ran;
                ScheduleAction::Run
            },
            SchedulePhase::Ran => {
                let more = match self.opts.max_runs {
                    Some(max) => self.runs < max,
                    None => true,
                };
                if more {
                    self.phase = SchedulePhase::Due;
                    ScheduleAction::Wait(self.opts.interval_secs)
                } else {
                    self.phase = SchedulePhase::Over;
                    ScheduleAction::Stop
                }
            },
            SchedulePhase::Over => ScheduleAction::Stop,
        }
    }
}

/// The schedule after `n` actions.
pub open spec fn after_actions(opts: ScheduleOptions, n: nat) -> ScheduleView
    decreases n,
{
    if n == 0 {
        planned(opts)
    } else {
        scheduled(after_actions(opts, (n - 1) as nat)).0
    }
}

/// The action behind `n` others.
pub open spec fn action_at(opts: ScheduleOptions, n: nat) -> ScheduleAction {
    scheduled(after_actions(opts, n)).1
}

/// Whether there is a run behind `runs` of them; there is always a first one.
pub open spec fn runs_after(opts: ScheduleOptions, runs: nat) -> bool {
    runs == 0 || goes_on(opts, runs)
}

proof fn lemma_after_actions(opts: ScheduleOptions, n: nat)
    ensures
        after_actions(opts, n).opts == opts,
        n % 2 == 0 && runs_after(opts, n / 2) ==> after_actions(opts, n).phase
            == SchedulePhase::Due && after_actions(opts, n).runs == n / 2,
        n % 2 == 1 && runs_after(opts, n / 2) ==> after_actions(opts, n).phase
            == SchedulePhase::Ran && after_actions(opts, n).runs == n / 2 + 1,
        n % 2 == 0 && !runs_after(opts, n / 2) ==> after_actions(opts, n).phase
            == SchedulePhase::Over,
        n % 2 == 1 && !runs_after(opts, n / 2) ==> after_actions(opts, n).phase
            == SchedulePhase::Over,
    decreases n,
{
    if n > 0 {
        lemma_after_actions(opts, (n - 1) as nat);
    }
}

/// A task is run at once, and again only after the interval: runs and waits
/// take turns, as long as there is another run, and behind the last run there
/// is nothing more.
pub proof fn law_runs_and_waits_take_turns(opts: ScheduleOptions, n: nat)
    ensures
        action_at(opts, n) == if n % 2 == 0 && runs_after(opts, n / 2) {
            ScheduleAction::Run
        } else if n % 2 == 1 && runs_after(opts, n / 2 + 1) {
            ScheduleAction::Wait(opts.interval_secs)
        } else {
            ScheduleAction::Stop
        },
{
    lemma_after_actions(opts, n);
}

/// The number of runs among the first `n` actions.
pub open spec fn total_runs(opts: ScheduleOptions, n: nat) -> nat
    decreases n,
{
    if n == 0 {
        0
    } else {
        total_runs(opts, (n - 1) as nat) + if action_at(opts, (n - 1) as nat)
            == ScheduleAction::Run {
            1nat
        } else {
            0
        }
    }
}

/// A task with a number of runs is run just so often, and once at least.
pub proof fn law_schedule_stops_at_max(opts: ScheduleOptions, n: nat)
    requires
        opts.max_runs is Some,
    ensures
        ({
            let wanted: nat = if opts.max_runs.unwrap() == 0 {
                1
            } else {
                opts.max_runs.unwrap() as nat
            };
            total_runs(opts, n) == if (n + 1) / 2 < wanted {
                (n + 1) / 2
            } else {
                wanted
            }
        }),
    decreases n,
{
    if n > 0 {
        law_schedule_stops_at_max(opts, (n - 1) as nat);
        law_runs_and_waits_take_turns(opts, (n - 1) as nat);
    }
}

/// A task without a number of runs is run for as long as one waits.
pub proof fn law_schedule_without_max_goes_on(opts: ScheduleOptions, n: nat)
    requires
        opts.max_runs is None,
    ensures
        total_runs(opts, n) == (n + 1) / 2,
    decreases n,
{
    if n > 0 {
        law_schedule_without_max_goes_on(opts, (n - 1) as nat);
        law_runs_and_waits_take_turns(opts, (n - 1) as nat);
    }
}

} // verus!
