use vstd::prelude::*;

verus! {

/// How a sweep trial ended.
#[derive(Clone, Copy, Debug, PartialEq, Eq, Structural)]
pub enum TrialStatus {
    DryRun,
    FailedBuild,
    RejectedScreen,
    Success,
    NanWithVal,
    Nan,
    FailedRun,
}

/// The name a status is logged and stored under.
pub open spec fn status_name(s: TrialStatus) -> Seq<char> {
    match s {
        TrialStatus::DryRun => "dry_run"@,
        TrialStatus::FailedBuild => "failed_build"@,
        TrialStatus::RejectedScreen => "rejected_screen"@,
        TrialStatus::Success => "success"@,
        TrialStatus::NanWithVal => "nan_with_val"@,
        TrialStatus::Nan => "nan"@,
        TrialStatus::FailedRun => "failed_run"@,
    }
}

impl TrialStatus {
    /// The name a status is logged and stored under.
    pub fn name(&self) -> (r: &'static str)
        ensures
            r@ == status_name(*self),
    {
        match self {
            TrialStatus::DryRun => "dry_run",
            TrialStatus::FailedBuild => "failed_build",
            TrialStatus::RejectedScreen => "rejected_screen",
            TrialStatus::Success => "success",
            TrialStatus::NanWithVal => "nan_with_val",
            TrialStatus::Nan => "nan",
            TrialStatus::FailedRun => "failed_run",
        }
    }
}

/// What happened at the last step of a trial.
#[derive(Clone, Copy, Debug, PartialEq, Eq, Structural)]
pub enum TrialEvent {
    /// The trial's directory and candidate file are written.
    Started { dry_run: bool },
    /// The build finished.
    Built { success: bool },
    /// The short screening run finished: the steps it completed, whether it
    /// reported a validation loss, and whether that loss beat the screening
    /// baseline (true when there is no baseline).
    Screened { completed_steps: Option<usize>, has_val_loss: bool, beats_baseline: bool },
    /// The full training run finished.
    Trained { has_val_loss: bool, saw_nan: bool },
}

/// What the sweep does next for a trial.
#[derive(Clone, Copy, Debug, PartialEq, Eq, Structural)]
pub enum TrialAction {
    Build,
    Screen,
    Train,
    Finish(TrialStatus),
}

/// Whether a screening run earns the full run: it completed the screening
/// steps and reported a loss that beats the baseline.
pub open spec fn passes_screen(completed_steps: Option<usize>, has_val_loss: bool, beats_baseline: bool, screen_steps: usize) -> bool {
    let done = match completed_steps {
        Some(n) => n,
        None => 0,
    };
    done >= screen_steps && has_val_loss && beats_baseline
}

/// The status of a finished training run.
pub open spec fn trained_status(has_val_loss: bool, saw_nan: bool) -> TrialStatus {
    if has_val_loss && !saw_nan {
        TrialStatus::Success
    } else if has_val_loss {
        TrialStatus::NanWithVal
    } else if saw_nan {
        TrialStatus::Nan
    } else {
        TrialStatus::FailedRun
    }
}

/// The step after `event` in a trial: a dry run stops at once; a failed
/// build, or a screen that does not pass, ends the trial; a finished
/// training run ends it with the status its result gives.
pub fn next_action(event: TrialEvent, screen_steps: usize) -> (r: TrialAction)
    ensures
        r == (match event {
            TrialEvent::Started { dry_run } => if dry_run {
                TrialAction::Finish(TrialStatus::DryRun)
            } else {
                TrialAction::Build
            },
            TrialEvent::Built { success } => if success {
                TrialAction::Screen
            } else {
                TrialAction::Finish(TrialStatus::FailedBuild)
            },
            TrialEvent::Screened { completed_steps, has_val_loss, beats_baseline } => if passes_screen(
                completed_steps,
                has_val_loss,
                beats_baseline,
                screen_steps,
            ) {
                TrialAction::Train
            } else {
                TrialAction::Finish(TrialStatus::RejectedScreen)
            },
            TrialEvent::Trained { has_val_loss, saw_nan } => TrialAction::Finish(
                trained_status(has_val_loss, saw_nan),
            ),
        }),
        event matches TrialEvent::Screened { completed_steps, has_val_loss, beats_baseline } ==> (r
            == TrialAction::Train <==> has_val_loss && beats_baseline && (match completed_steps {
            Some(n) => n >= screen_steps,
            None => screen_steps == 0,
        })),
        event matches TrialEvent::Screened { .. } ==> (r == TrialAction::Train || r
            == TrialAction::Finish(TrialStatus::RejectedScreen)),
        event == (TrialEvent::Trained { has_val_loss: true, saw_nan: false }) ==> r
            == TrialAction::Finish(TrialStatus::Success),
        event == (TrialEvent::Trained { has_val_loss: true, saw_nan: true }) ==> r
            == TrialAction::Finish(TrialStatus::NanWithVal),
        event == (TrialEvent::Trained { has_val_loss: false, saw_nan: true }) ==> r
            == TrialAction::Finish(TrialStatus::Nan),
        event == (TrialEvent::Trained { has_val_loss: false, saw_nan: false }) ==> r
            == TrialAction::Finish(TrialStatus::FailedRun),
{
    match event {
        TrialEvent::Started { dry_run } => {
            if dry_run {
                TrialAction::Finish(TrialStatus::DryRun)
            } else {
                TrialAction::Build
            }
        },
        TrialEvent::Built { success } => {
            if success {
                TrialAction::Screen
            } else {
                TrialAction::Finish(TrialStatus::FailedBuild)
            }
        },
        TrialEvent::Screened { completed_steps, has_val_loss, beats_baseline } => {
            let done = match completed_steps {
                Some(n) => n,
                None => 0,
            };
            if done >= screen_steps && has_val_loss && beats_baseline {
                TrialAction::Train
            } else {
                TrialAction::Finish(TrialStatus::RejectedScreen)
            }
        },
        TrialEvent::Trained { has_val_loss, saw_nan } => {
            let status = if has_val_loss && !saw_nan {
                TrialStatus::Success
            } else if has_val_loss {
                TrialStatus::NanWithVal
            } else if saw_nan {
                TrialStatus::Nan
            } else {
                TrialStatus::FailedRun
            };
            TrialAction::Finish(status)
        },
    }
}

/// What to do after a line of a training run's output: record progress when
/// the completed steps or the validation loss changed or a `NaN` showed, and
/// stop the run on a `NaN`.
pub struct LineAction {
    pub record_progress: bool,
    pub stop_for_nan: bool,
}

/// The action after a log line, from what the line changed.
pub fn after_line(
    previous_steps: Option<usize>,
    steps: Option<usize>,
    val_loss_changed: bool,
    saw_nan: bool,
) -> (r: LineAction)
    ensures
        r.record_progress == (steps != previous_steps || val_loss_changed || saw_nan),
        r.stop_for_nan == saw_nan,
{
    let steps_changed = match (previous_steps, steps) {
        (Some(a), Some(b)) => a != b,
        (None, None) => false,
        _ => true,
    };
    LineAction { record_progress: steps_changed || val_loss_changed || saw_nan, stop_for_nan: saw_nan }
}


/// Which log a finished trial points to.
#[derive(Clone, Copy, Debug, PartialEq, Eq, Structural)]
pub enum TrialLog {
    /// `train.log`, the full run's log (also named for trials that never ran).
    Train,
    /// `screen.log`, the screening run's log.
    Screen,
}

impl TrialLog {
    /// The log's file name.
    pub fn file_name(&self) -> (r: &'static str)
        ensures
            r@ == (match *self {
                TrialLog::Train => "train.log"@,
                TrialLog::Screen => "screen.log"@,
            }),
    {
        match self {
            TrialLog::Train => "train.log",
            TrialLog::Screen => "screen.log",
        }
    }
}

/// What a finished trial keeps.
pub struct FinishedRecord<L> {
    pub val_loss: Option<L>,
    pub completed_steps: Option<usize>,
    pub log: TrialLog,
}

/// What a trial that ended with `status` keeps, given what its screening
/// run and its full run reported (each `None`/unused when it did not run):
/// a rejected screen keeps no loss, the screen's completed steps and the
/// screening log; a finished full run keeps its loss and completed steps and
/// the training log; a dry run or a failed build keeps nothing and names the
/// training log.
pub fn finished_record<L: Copy>(
    status: TrialStatus,
    screen_steps: Option<usize>,
    run_val_loss: Option<L>,
    run_steps: Option<usize>,
) -> (r: FinishedRecord<L>)
    ensures
        match status {
            TrialStatus::DryRun | TrialStatus::FailedBuild => r.val_loss is None && r.completed_steps
                is None && r.log == TrialLog::Train,
            TrialStatus::RejectedScreen => r.val_loss is None && r.completed_steps == screen_steps
                && r.log == TrialLog::Screen,
            _ => r.val_loss == run_val_loss && r.completed_steps == run_steps && r.log
                == TrialLog::Train,
        },
{
    match status {
        TrialStatus::DryRun | TrialStatus::FailedBuild => FinishedRecord {
            val_loss: None,
            completed_steps: None,
            log: TrialLog::Train,
        },
        TrialStatus::RejectedScreen => FinishedRecord {
            val_loss: None,
            completed_steps: screen_steps,
            log: TrialLog::Screen,
        },
        _ => FinishedRecord { val_loss: run_val_loss, completed_steps: run_steps, log: TrialLog::Train },
    }
}

} // verus!
