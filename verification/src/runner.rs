use vstd::prelude::*;

verus! {

use vstd::string::StringExecFns;
use crate::config::{ExecConfig, ExecCommandConfig};
use crate::executor::CliError;

/// Exit code reported when the requested command is absent from the merged
/// table, reserved as the shell convention for an unknown command.
pub const COMMAND_NOT_FOUND_CODE: i32 = 127;

/// Looks the requested command up in the merged table; an absent name is the
/// distinct command-not-found failure.
pub fn resolve_command<'a>(table: &'a ExecConfig, name: &str) -> (r: Result<
    &'a ExecCommandConfig,
    CliError,
>)
    requires
        table.wf(),
    ensures
        match r {
            Ok(c) => table.table().contains_key(name@) && c.deep_view() == table.table()[name@],
            Err(e) => !table.table().contains_key(name@) && e.code == COMMAND_NOT_FOUND_CODE
                && e.message@ == "No such command: "@ + name@,
        },
{
    match table.get(name) {
        Some(c) => Ok(c),
        None => {
            let mut msg: String = "No such command: ".to_owned();
            msg.append(name);
            Err(CliError::new(COMMAND_NOT_FOUND_CODE, msg))
        },
    }
}

/// How one resolved command's run ended.
#[derive(Debug, Clone, Copy, PartialEq, Eq, Structural)]
pub enum RunOutcome {
    /// Every step that mattered succeeded; carries the overall exit code zero.
    Completed(i32),
    /// A step failed while failures mattered; carries that step's exit code.
    Failed(i32),
}

/// The outcome a run has if its steps would report the given exit codes, in
/// order. With failures ignored every step runs and the outcome is a completed
/// run; otherwise the first non-zero code ends the run as a failure.
pub open spec fn spec_run_outcome(codes: Seq<i32>, ignore_failures: bool) -> RunOutcome
    decreases codes.len(),
{
    if ignore_failures {
        RunOutcome::Completed(0)
    } else if codes.len() == 0 {
        RunOutcome::Completed(0)
    } else if codes[0] != 0 {
        RunOutcome::Failed(codes[0])
    } else {
        spec_run_outcome(codes.drop_first(), ignore_failures)
    }
}

/// How many of the steps are executed if they would report the given codes:
/// all of them when failures are ignored, otherwise everything up to and
/// holding the first failing step.
pub open spec fn spec_steps_run(codes: Seq<i32>, ignore_failures: bool) -> nat
    decreases codes.len(),
{
    if codes.len() == 0 {
        0
    } else if codes[0] != 0 && !ignore_failures {
        1
    } else {
        1 + spec_steps_run(codes.drop_first(), ignore_failures)
    }
}

/// With failures ignored, a run always completes, whatever its steps report.
pub proof fn lemma_ignored_failures_complete(codes: Seq<i32>)
    ensures
        spec_run_outcome(codes, true) == RunOutcome::Completed(0),
        spec_steps_run(codes, true) == codes.len(),
    decreases codes.len(),
{
    if codes.len() > 0 {
        lemma_ignored_failures_complete(codes.drop_first());
    }
}

/// Runs the steps of one resolved command in order; `next_step` points at the
/// step to execute next, and `failure` holds the exit code of the step that
/// ended the run early, where one did.
pub struct CommandRunner {
    pub steps: Vec<String>,
    pub ignore_failures: bool,
    pub next_step: usize,
    pub failure: Option<i32>,
}

impl CommandRunner {
    pub open spec fn wf(&self) -> bool {
        &&& self.next_step <= self.steps.len()
        &&& (self.failure is Some ==> !self.ignore_failures && self.next_step < self.steps.len())
    }

    /// True while a step remains to run and none has ended the run.
    pub open spec fn is_executing(&self) -> bool {
        self.failure is None && self.next_step < self.steps.len()
    }

    pub fn start(steps: Vec<String>, ignore_failures: bool) -> (r: Self)
        ensures
            r.wf(),
            r.steps == steps,
            r.ignore_failures == ignore_failures,
            r.next_step == 0,
            r.failure is None,
    {
        CommandRunner { steps, ignore_failures, next_step: 0, failure: None }
    }

    /// The step to execute now, if the run is still executing.
    pub fn current_step(&self) -> (r: Option<&String>)
        requires
            self.wf(),
        ensures
            match r {
                Some(s) => self.is_executing() && s@ == self.steps@[self.next_step as int]@,
                None => !self.is_executing(),
            },
    {
        if self.failure.is_none() && self.next_step < self.steps.len() {
            Some(&self.steps[self.next_step])
        } else {
            None
        }
    }

    /// Records what the current step reported. A failure ends the run unless
    /// failures are ignored; an ignored failure, like a success, moves on to
    /// the next step.
    pub fn record_result(&mut self, code: i32)
        requires
            old(self).wf(),
            old(self).is_executing(),
        ensures
            final(self).wf(),
            final(self).steps == old(self).steps,
            final(self).ignore_failures == old(self).ignore_failures,
            code != 0 && !old(self).ignore_failures ==> {
                &&& final(self).failure == Some(code)
                &&& final(self).next_step == old(self).next_step
            },
            code == 0 || old(self).ignore_failures ==> {
                &&& final(self).failure is None
                &&& final(self).next_step == old(self).next_step + 1
            },
    {
        if code != 0 && !self.ignore_failures {
            self.failure = Some(code);
        } else {
            self.next_step = self.next_step + 1;
        }
    }

    /// The run's outcome, once no step remains: zero for a completed run, the
    /// failing step's code otherwise.
    pub fn outcome(&self) -> (r: Option<RunOutcome>)
        requires
            self.wf(),
        ensures
            match r {
                Some(o) => !self.is_executing() && o == (match self.failure {
                    Some(c) => RunOutcome::Failed(c),
                    None => RunOutcome::Completed(0),
                }),
                None => self.is_executing(),
            },
    {
        match self.failure {
            Some(c) => Some(RunOutcome::Failed(c)),
            None => {
                if self.next_step >= self.steps.len() {
                    Some(RunOutcome::Completed(0))
                } else {
                    None
                }
            },
        }
    }
}

/// Drives a run whose steps would report the given codes through the runner,
/// showing that the machine realizes the declarative outcome.
pub fn outcome_of_codes(steps: Vec<String>, ignore_failures: bool, codes: &Vec<i32>) -> (r:
    RunOutcome)
    requires
        codes@.len() == steps@.len(),
    ensures
        r == spec_run_outcome(codes@, ignore_failures),
{
    let ghost all = codes@;
    let mut runner = CommandRunner::start(steps, ignore_failures);
    proof {
        assert(all.skip(0) =~= all);
    }
    loop
        invariant
            runner.wf(),
            codes@ == all,
            runner.steps@.len() == all.len(),
            runner.ignore_failures == ignore_failures,
            runner.failure is None ==> spec_run_outcome(all.skip(runner.next_step as int),
                ignore_failures) == spec_run_outcome(all, ignore_failures),
            runner.failure matches Some(c) ==> spec_run_outcome(all, ignore_failures)
                == RunOutcome::Failed(c),
        ensures
            runner.wf(),
            !runner.is_executing(),
            runner.failure is None ==> spec_run_outcome(all, ignore_failures)
                == RunOutcome::Completed(0),
            runner.failure matches Some(c) ==> spec_run_outcome(all, ignore_failures)
                == RunOutcome::Failed(c),
        decreases all.len() - runner.next_step, (if runner.failure is Some {
            0int
        } else {
            1int
        }),
    {
        let step = runner.current_step();
        if step.is_none() {
            break;
        }
        let idx = runner.next_step;
        let code = codes[idx];
        proof {
            assert(all.skip(idx as int)[0] == all[idx as int]);
            assert(all.skip(idx as int).drop_first() =~= all.skip(idx + 1));
            if ignore_failures {
                lemma_ignored_failures_complete(all);
            }
        }
        runner.record_result(code);
    }
    proof {
        if runner.failure is None {
            assert(all.skip(all.len() as int) =~= Seq::<i32>::empty());
        }
    }
    match runner.outcome() {
        Some(o) => o,
        None => RunOutcome::Completed(0),
    }
}

} // verus!
