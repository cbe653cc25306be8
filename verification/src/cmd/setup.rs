//! The convergence controller: from the desired snapshot's source to the lock record.
//!
//! The controller decides and the caller acts. A `Reconciliation` says what is to be done next;
//! the caller does it and reports what came of it.
//!
//! Runs are sequential, and so are the operations of a run. Two runs at once are not
//! supported: the lock record is one file without a locking protocol, and whoever starts runs
//! has to keep them apart.

use crate::apply::{dry_run_text, SetupStep, StepView};
use crate::command::{
    bash, branch, if_exists, in_home, run_with, shell, Action, ActionView, Arg, ArgView,
    CommandView, Location, LocationView,
};
use crate::config::{setup_steps, Configuration, ConfigurationView};
use crate::consts::{CONFIG_FILE, MIN_DISK_GB};
use crate::diff::{
    compare_configurations, configuration_diff, lemma_diff_of_same_snapshot, Diff, DiffView,
};
use crate::git::{extract_repo_name, extract_version, repo_name, url_path_segments, version_split};
use crate::style::{bold, paint_bold, paint_yellow, yellow};
use crate::text::{
    decimal, decimal_text, has_prefix, lines, lines_of, parse_u64, parsed_u64, replace_all,
    replaced, starts_with, strip_prefix, trim, trimmed, without_prefix,
};
use vstd::prelude::*;

verus! {

/// Why a run failed.
#[derive(Debug, Clone, Copy, PartialEq, Eq, Structural)]
pub enum Failure {
    /// The desired snapshot could not be read.
    ConfigLoad,
    /// The desired snapshot is not consistent.
    Validation,
    /// The host does not meet what a run needs.
    Precondition,
    /// The operation at this place in the run failed.
    Operation(usize),
    /// The lock record could not be written.
    Persistence,
}

/// The location that a configuration reference stands for: a reference that starts with
/// `github:` or `tangled:` names a repository at that host, any other stands for itself.
pub open spec fn config_location(reference: Seq<char>) -> Seq<char> {
    match without_prefix(reference, "github:"@) {
        Some(repo) => "https://github.com/"@ + repo,
        None => match without_prefix(reference, "tangled:"@) {
            Some(repo) => "https://tangled.sh/"@ + repo,
            None => reference,
        },
    }
}

/// Resolves a configuration reference to a location. This never fails.
pub fn parse_config_path(config_path: &str) -> (location: Result<String, Failure>)
    ensures
        location is Ok,
        location->Ok_0@ == config_location(config_path@),
{
    if let Some(repo) = strip_prefix(config_path, "github:") {
        let mut location = "https://github.com/".to_owned();
        location.append(repo.as_str());
        return Ok(location);
    }
    if let Some(repo) = strip_prefix(config_path, "tangled:") {
        let mut location = "https://tangled.sh/".to_owned();
        location.append(repo.as_str());
        return Ok(location);
    }
    Ok(config_path.to_owned())
}

/// Where the desired snapshot comes from.
#[derive(Debug)]
pub enum ConfigSource {
    /// A repository to fetch, at a version if one is named.
    Repository { url: String, version: Option<String> },
    /// A file on this host.
    File(String),
}

/// What a `ConfigSource` holds.
pub enum ConfigSourceView {
    Repository { url: Seq<char>, version: Option<Seq<char>> },
    File(Seq<char>),
}

impl DeepView for ConfigSource {
    type V = ConfigSourceView;

    open spec fn deep_view(&self) -> ConfigSourceView {
        match self {
            ConfigSource::Repository { url, version } => ConfigSourceView::Repository {
                url: url@,
                version: version.deep_view(),
            },
            ConfigSource::File(path) => ConfigSourceView::File(path@),
        }
    }
}

impl View for ConfigSource {
    type V = ConfigSourceView;

    open spec fn view(&self) -> ConfigSourceView {
        self.deep_view()
    }
}

/// The source that a configuration reference names: a location that starts with `https://` is
/// a repository, with the version that the location asks for; any other is a file.
pub open spec fn source_of(reference: Seq<char>) -> ConfigSourceView {
    let location = config_location(reference);
    if has_prefix(location, "https://"@) {
        ConfigSourceView::Repository {
            url: version_split(location).0,
            version: version_split(location).1,
        }
    } else {
        ConfigSourceView::File(location)
    }
}

/// Finds the source that a configuration reference names.
pub fn resolve_source(config_path: &str) -> (source: ConfigSource)
    ensures
        source@ == source_of(config_path@),
{
    let location = match parse_config_path(config_path) {
        Ok(location) => location,
        Err(_) => config_path.to_owned(),
    };
    if starts_with(location.as_str(), "https://") {
        let (url, version) = extract_version(location.as_str());
        ConfigSource::Repository { url, version }
    } else {
        ConfigSource::File(location)
    }
}

/// What to take the desired snapshot from.
#[derive(Debug, Clone, Copy, PartialEq, Eq, Structural)]
pub enum ConfigChoice {
    /// Read the file.
    Load,
    /// Take the default snapshot.
    Defaults,
}

/// A file that is there is read. Only the default file may be missing, and the default
/// snapshot then stands in for it; no other file can be done without.
pub open spec fn config_choice(path: Seq<char>, exists: bool) -> Result<ConfigChoice, Failure> {
    if exists {
        Ok(ConfigChoice::Load)
    } else if path == CONFIG_FILE@ {
        Ok(ConfigChoice::Defaults)
    } else {
        Err(Failure::ConfigLoad)
    }
}

/// Decides what to take the desired snapshot from, once it is known whether the file at
/// `path` is there.
pub fn choose_config(path: &str, exists: bool) -> (choice: Result<ConfigChoice, Failure>)
    ensures
        choice == config_choice(path@, exists),
{
    if exists {
        Ok(ConfigChoice::Load)
    } else if path.eq(CONFIG_FILE) {
        Ok(ConfigChoice::Defaults)
    } else {
        Err(Failure::ConfigLoad)
    }
}

/// The size of the disk in gigabytes, as a report of disk sizes gives it in its second line;
/// zero where the report has no second line or the line holds no number.
pub open spec fn disk_size(report: Seq<char>) -> u64 {
    let found = lines_of(report);
    let line = if found.len() > 1 {
        found[1]
    } else {
        "0"@
    };
    match parsed_u64(trimmed(replaced(line, "G"@, ""@))) {
        Some(size) => size,
        None => 0,
    }
}

/// Reads the size of the disk out of a report of disk sizes.
pub fn parse_disk_size(report: &str) -> (size: u64)
    ensures
        size == disk_size(report@),
{
    let found = lines(report);
    let line: &str = if found.len() > 1 {
        found[1].as_str()
    } else {
        "0"
    };
    let number = trim(replace_all(line, "G", "").as_str());
    match parse_u64(number.as_str()) {
        Some(size) => size,
        None => 0,
    }
}

/// Whether an answer to the confirmation prompt says yes: a `y`, in either case, with
/// nothing but white space around it.
pub open spec fn is_yes(answer: Seq<char>) -> bool {
    trimmed(answer) == "y"@ || trimmed(answer) == "Y"@
}

/// Whether an answer to the confirmation prompt says yes.
pub fn is_affirmative(answer: &str) -> (yes: bool)
    ensures
        yes == is_yes(answer@),
{
    let said = trim(answer);
    said.as_str().eq("y") || said.as_str().eq("Y")
}

/// How a run ended.
#[derive(Debug, Clone, Copy, PartialEq, Eq, Structural)]
pub enum Outcome {
    /// There was nothing to change.
    UpToDate,
    /// The user did not confirm.
    Cancelled,
    /// The operations were shown, none was run.
    Previewed,
    /// Every operation ran and the lock record was written.
    Applied,
    /// The run failed.
    Failed(Failure),
}

impl Outcome {
    /// The exit code that stands for the outcome: zero unless the run failed.
    pub open spec fn spec_exit_code(self) -> i32 {
        match self {
            Outcome::Failed(_) => 1,
            _ => 0,
        }
    }

    /// The exit code that stands for the outcome.
    pub fn exit_code(&self) -> (code: i32)
        ensures
            code == self.spec_exit_code(),
    {
        match self {
            Outcome::Failed(_) => 1,
            _ => 0,
        }
    }
}

/// Where a run stands: what it is waiting for.
#[derive(Debug, Clone, Copy, PartialEq, Eq, Structural)]
pub enum Stage {
    /// The desired snapshot is being validated.
    Validating,
    /// The changes are being shown.
    Showing,
    /// The user is being asked to confirm.
    Confirming,
    /// The disk is being measured.
    Measuring,
    /// The operations are being shown.
    Previewing,
    /// The operation at this place is running.
    Executing(usize),
    /// The lock record is being written.
    Persisting,
    /// The run is over.
    Done(Outcome),
}

/// What the caller is to do next.
#[derive(Debug, Clone, Copy, PartialEq, Eq, Structural)]
pub enum Request {
    /// Validate the desired snapshot, and report `Validated`.
    Validate,
    /// Show the changes, and report `Shown`.
    ShowChanges,
    /// Ask the user to confirm, and report `Answered` with the line that was read.
    Confirm,
    /// Ask for the report of disk sizes, and report `Measured` with it.
    MeasureDisk,
    /// Show the operations, and report `Previewed`.
    Preview,
    /// Run the operation at this place, and report `StepFinished`.
    Execute(usize),
    /// Write the desired snapshot as the lock record, and report `LockWritten`.
    WriteLock,
    /// Nothing more: the run is over.
    Stop(Outcome),
}

/// What came of a request.
#[derive(Debug)]
pub enum Event {
    /// Whether the desired snapshot is valid.
    Validated(bool),
    /// The changes were shown.
    Shown,
    /// The line that the user answered with.
    Answered(String),
    /// The report of disk sizes, if one could be had.
    Measured(Option<String>),
    /// The operations were shown.
    Previewed,
    /// Whether the operation succeeded.
    StepFinished(bool),
    /// Whether the lock record was written.
    LockWritten(bool),
}

/// What an `Event` holds.
pub enum EventView {
    Validated(bool),
    Shown,
    Answered(Seq<char>),
    Measured(Option<Seq<char>>),
    Previewed,
    StepFinished(bool),
    LockWritten(bool),
}

impl DeepView for Event {
    type V = EventView;

    open spec fn deep_view(&self) -> EventView {
        match self {
            Event::Validated(valid) => EventView::Validated(*valid),
            Event::Shown => EventView::Shown,
            Event::Answered(line) => EventView::Answered(line@),
            Event::Measured(report) => EventView::Measured(report.deep_view()),
            Event::Previewed => EventView::Previewed,
            Event::StepFinished(succeeded) => EventView::StepFinished(*succeeded),
            Event::LockWritten(written) => EventView::LockWritten(*written),
        }
    }
}

impl View for Event {
    type V = EventView;

    open spec fn view(&self) -> EventView {
        self.deep_view()
    }
}

/// A run, as far as its course depends on it: its options, how many operations it holds, and
/// where it stands.
pub struct RunView {
    pub dry_run: bool,
    pub no_confirm: bool,
    pub steps: usize,
    pub stage: Stage,
}

/// Where a run starts: it is over at once where nothing differs.
pub open spec fn first_stage(changes: nat) -> Stage {
    if changes == 0 {
        Stage::Done(Outcome::UpToDate)
    } else {
        Stage::Validating
    }
}

/// What a stage asks the caller for.
pub open spec fn request_of(stage: Stage) -> Request {
    match stage {
        Stage::Validating => Request::Validate,
        Stage::Showing => Request::ShowChanges,
        Stage::Confirming => Request::Confirm,
        Stage::Measuring => Request::MeasureDisk,
        Stage::Previewing => Request::Preview,
        Stage::Executing(index) => Request::Execute(index),
        Stage::Persisting => Request::WriteLock,
        Stage::Done(outcome) => Request::Stop(outcome),
    }
}

/// Where a run that has the disk measured goes on: to the preview in a dry run, else to its
/// first operation.
pub open spec fn stage_after_measuring(run: RunView) -> Stage {
    if run.dry_run {
        Stage::Previewing
    } else if run.steps == 0 {
        Stage::Persisting
    } else {
        Stage::Executing(0)
    }
}

impl RunView {
    /// Where the run stands after `event`. An event that does not answer what the run is
    /// waiting for leaves it where it is.
    pub open spec fn next_stage(self, event: EventView) -> Stage {
        match (self.stage, event) {
            (Stage::Validating, EventView::Validated(valid)) => if valid {
                Stage::Showing
            } else {
                Stage::Done(Outcome::Failed(Failure::Validation))
            },
            (Stage::Showing, EventView::Shown) => if !self.no_confirm && !self.dry_run {
                Stage::Confirming
            } else {
                Stage::Measuring
            },
            (Stage::Confirming, EventView::Answered(line)) => if is_yes(line) {
                Stage::Measuring
            } else {
                Stage::Done(Outcome::Cancelled)
            },
            (Stage::Measuring, EventView::Measured(report)) => match report {
                Some(sizes) => if disk_size(sizes) < MIN_DISK_GB {
                    Stage::Done(Outcome::Failed(Failure::Precondition))
                } else {
                    stage_after_measuring(self)
                },
                None => Stage::Done(Outcome::Failed(Failure::Precondition)),
            },
            (Stage::Previewing, EventView::Previewed) => Stage::Done(Outcome::Previewed),
            (Stage::Executing(index), EventView::StepFinished(succeeded)) => if !succeeded {
                Stage::Done(Outcome::Failed(Failure::Operation(index)))
            } else if index + 1 < self.steps {
                Stage::Executing((index + 1) as usize)
            } else {
                Stage::Persisting
            },
            (Stage::Persisting, EventView::LockWritten(written)) => if written {
                Stage::Done(Outcome::Applied)
            } else {
                Stage::Done(Outcome::Failed(Failure::Persistence))
            },
            _ => self.stage,
        }
    }

    /// The run after `event`.
    pub open spec fn after(self, event: EventView) -> RunView {
        RunView { stage: self.next_stage(event), ..self }
    }

    /// The run after the events `events`, in order.
    pub open spec fn after_all(self, events: Seq<EventView>) -> RunView
        decreases events.len(),
    {
        if events.len() == 0 {
            self
        } else {
            self.after_all(events.drop_last()).after(events.last())
        }
    }

    /// A run that is executing is at one of its operations.
    pub open spec fn well_formed(self) -> bool {
        match self.stage {
            Stage::Executing(index) => index < self.steps,
            _ => true,
        }
    }
}

/// One reconciliation of a host with a desired snapshot.
#[derive(Debug)]
pub struct Reconciliation<'a> {
    dry_run: bool,
    no_confirm: bool,
    diffs: Vec<Diff>,
    steps: Vec<SetupStep<'a>>,
    stage: Stage,
}

impl<'a> View for Reconciliation<'a> {
    type V = RunView;

    closed spec fn view(&self) -> RunView {
        RunView {
            dry_run: self.dry_run,
            no_confirm: self.no_confirm,
            steps: self.steps.len(),
            stage: self.stage,
        }
    }
}

impl<'a> Reconciliation<'a> {
    #[verifier::type_invariant]
    pub closed spec fn well_formed(&self) -> bool {
        self@.well_formed()
    }

    /// The changes that the run is to make.
    pub closed spec fn changes(&self) -> Seq<DiffView> {
        self.diffs.deep_view()
    }

    /// The operations of the run.
    pub closed spec fn operations(&self) -> Seq<StepView> {
        self.steps.deep_view()
    }

    /// Starts a run that brings a host from `previous` to `desired`: compares the two, and
    /// translates what differs into operations.
    pub fn begin(
        previous: &Configuration,
        desired: &'a Configuration,
        dry_run: bool,
        no_confirm: bool,
    ) -> (run: Self)
        ensures
            run.changes() == configuration_diff(previous@, desired@),
            run.operations() == setup_steps(desired@, run.changes()),
            run@ == (RunView {
                dry_run,
                no_confirm,
                steps: run.operations().len() as usize,
                stage: first_stage(run.changes().len()),
            }),
            previous@ == desired@ ==> run@.stage == Stage::Done(Outcome::UpToDate),
    {
        let diffs = compare_configurations(previous, desired);
        let steps = desired.setup_steps_for(&diffs);
        let stage = if diffs.len() == 0 {
            Stage::Done(Outcome::UpToDate)
        } else {
            Stage::Validating
        };
        Reconciliation { dry_run, no_confirm, diffs, steps, stage }
    }

    /// The changes that the run is to make.
    pub fn diffs(&self) -> (diffs: &Vec<Diff>)
        ensures
            diffs.deep_view() == self.changes(),
    {
        &self.diffs
    }

    /// The operations of the run.
    pub fn steps(&self) -> (steps: &Vec<SetupStep<'a>>)
        ensures
            steps.deep_view() == self.operations(),
            steps.len() == self@.steps,
    {
        &self.steps
    }

    /// Where the run stands.
    pub fn stage(&self) -> (stage: Stage)
        ensures
            stage == self@.stage,
    {
        self.stage
    }

    /// What the caller is to do next. An operation that is to be run is one of the run's.
    pub fn pending(&self) -> (request: Request)
        ensures
            request == request_of(self@.stage),
            request matches Request::Execute(index) ==> index < self.operations().len(),
    {
        proof {
            use_type_invariant(self);
        }
        match self.stage {
            Stage::Validating => Request::Validate,
            Stage::Showing => Request::ShowChanges,
            Stage::Confirming => Request::Confirm,
            Stage::Measuring => Request::MeasureDisk,
            Stage::Previewing => Request::Preview,
            Stage::Executing(index) => Request::Execute(index),
            Stage::Persisting => Request::WriteLock,
            Stage::Done(outcome) => Request::Stop(outcome),
        }
    }

    /// Takes in what came of the last request, and says what the caller is to do next.
    pub fn advance(&mut self, event: Event) -> (request: Request)
        ensures
            final(self)@ == old(self)@.after(event@),
            final(self).changes() == old(self).changes(),
            final(self).operations() == old(self).operations(),
            request == request_of(final(self)@.stage),
            request matches Request::Execute(index) ==> index < final(self).operations().len(),
    {
        proof {
            use_type_invariant(&*self);
        }
        let next = match (self.stage, event) {
            (Stage::Validating, Event::Validated(valid)) => {
                if valid {
                    Stage::Showing
                } else {
                    Stage::Done(Outcome::Failed(Failure::Validation))
                }
            },
            (Stage::Showing, Event::Shown) => {
                if !self.no_confirm && !self.dry_run {
                    Stage::Confirming
                } else {
                    Stage::Measuring
                }
            },
            (Stage::Confirming, Event::Answered(line)) => {
                if is_affirmative(line.as_str()) {
                    Stage::Measuring
                } else {
                    Stage::Done(Outcome::Cancelled)
                }
            },
            (Stage::Measuring, Event::Measured(report)) => {
                match report {
                    Some(sizes) => {
                        if parse_disk_size(sizes.as_str()) < MIN_DISK_GB {
                            Stage::Done(Outcome::Failed(Failure::Precondition))
                        } else if self.dry_run {
                            Stage::Previewing
                        } else if self.steps.len() == 0 {
                            Stage::Persisting
                        } else {
                            Stage::Executing(0)
                        }
                    },
                    None => Stage::Done(Outcome::Failed(Failure::Precondition)),
                }
            },
            (Stage::Previewing, Event::Previewed) => Stage::Done(Outcome::Previewed),
            (Stage::Executing(index), Event::StepFinished(succeeded)) => {
                if !succeeded {
                    Stage::Done(Outcome::Failed(Failure::Operation(index)))
                } else if index + 1 < self.steps.len() {
                    Stage::Executing(index + 1)
                } else {
                    Stage::Persisting
                }
            },
            (Stage::Persisting, Event::LockWritten(written)) => {
                if written {
                    Stage::Done(Outcome::Applied)
                } else {
                    Stage::Done(Outcome::Failed(Failure::Persistence))
                }
            },
            (stage, _) => stage,
        };
        self.stage = next;
        self.pending()
    }
}

/// Idempotence of a run: reconciling a host with the snapshot that it already has is over at
/// once, with nothing to change.
pub proof fn lemma_unchanged_snapshot_is_up_to_date(snapshot: ConfigurationView)
    requires
        snapshot.well_formed(),
    ensures
        first_stage(configuration_diff(snapshot, snapshot).len()) == Stage::Done(
            Outcome::UpToDate,
        ),
{
    lemma_diff_of_same_snapshot(snapshot);
}

/// A run that is over stays over, with the outcome it had, whatever is reported to it.
pub proof fn lemma_done_is_final(run: RunView, events: Seq<EventView>)
    requires
        run.stage is Done,
    ensures
        run.after_all(events) == run,
    decreases events.len(),
{
    if events.len() > 0 {
        lemma_done_is_final(run, events.drop_last());
    }
}

/// Reporting events one after another is reporting the first, then the rest.
pub proof fn lemma_after_first(run: RunView, first: EventView, later: Seq<EventView>)
    ensures
        run.after_all(seq![first] + later) == run.after(first).after_all(later),
    decreases later.len(),
{
    let all = seq![first] + later;
    if later.len() == 0 {
        assert(all.drop_last() =~= Seq::<EventView>::empty());
        assert(all.last() == first);
        assert(run.after_all(all.drop_last()) == run);
    } else {
        lemma_after_first(run, first, later.drop_last());
        assert(all.drop_last() =~= seq![first] + later.drop_last());
        assert(all.last() == later.last());
    }
}

/// A stage at which no operation has run, none is running, and the lock record is untouched,
/// in a run that asks for confirmation: the run is before the answer, or over without one.
pub open spec fn before_confirmation(stage: Stage) -> bool {
    stage is Validating || stage is Showing || stage is Confirming || stage == Stage::Done(
        Outcome::UpToDate,
    ) || stage == Stage::Done(Outcome::Cancelled) || stage == Stage::Done(
        Outcome::Failed(Failure::Validation),
    )
}

/// None of `events` is an answer that says yes.
pub open spec fn no_yes(events: Seq<EventView>) -> bool {
    forall|i: int|
        0 <= i < events.len() ==> !((#[trigger] events[i]) matches EventView::Answered(line)
            && is_yes(line))
}

/// Confirmation gate: a run that asks for confirmation runs no operation and writes no lock
/// record unless an answer says yes, whatever else is reported to it.
pub proof fn lemma_nothing_runs_unconfirmed(run: RunView, events: Seq<EventView>)
    requires
        !run.dry_run,
        !run.no_confirm,
        before_confirmation(run.stage),
        no_yes(events),
    ensures
        before_confirmation(run.after_all(events).stage),
    decreases events.len(),
{
    if events.len() > 0 {
        let earlier = events.drop_last();
        assert(no_yes(earlier)) by {
            assert forall|i: int| 0 <= i < earlier.len() implies !((
            #[trigger] earlier[i]) matches EventView::Answered(line) && is_yes(line)) by {
                assert(earlier[i] == events[i]);
            }
        }
        lemma_nothing_runs_unconfirmed(run, earlier);
        lemma_options_stay(run, earlier);
        assert(events.last() == events[events.len() - 1]);
    }
}

/// Confirmation gate: an answer that does not say yes ends the run as cancelled, and nothing
/// that is reported later changes that.
pub proof fn lemma_refusal_cancels(run: RunView, line: Seq<char>, later: Seq<EventView>)
    requires
        run.stage is Confirming,
        !is_yes(line),
    ensures
        run.after_all(seq![EventView::Answered(line)] + later).stage == Stage::Done(
            Outcome::Cancelled,
        ),
{
    lemma_after_first(run, EventView::Answered(line), later);
    lemma_done_is_final(run.after(EventView::Answered(line)), later);
}

/// Failure aborts: an operation that fails ends the run as failed at that operation. No later
/// operation is asked for and the lock record is not written, whatever is reported later.
pub proof fn lemma_failure_aborts(run: RunView, index: usize, later: Seq<EventView>)
    requires
        run.stage == Stage::Executing(index),
    ensures
        run.after_all(seq![EventView::StepFinished(false)] + later).stage == Stage::Done(
            Outcome::Failed(Failure::Operation(index)),
        ),
{
    lemma_after_first(run, EventView::StepFinished(false), later);
    lemma_done_is_final(run.after(EventView::StepFinished(false)), later);
}

/// How many operations have succeeded once `events` are reported to `run`: the reports of
/// success that reached the run while an operation was running.
pub open spec fn succeeded(run: RunView, events: Seq<EventView>) -> nat
    decreases events.len(),
{
    if events.len() == 0 {
        0
    } else {
        succeeded(run, events.drop_last()) + (if run.after_all(events.drop_last()).stage is Executing
            && events.last() == EventView::StepFinished(true) {
            1nat
        } else {
            0nat
        })
    }
}

/// The stage is past the last operation: the lock record is being written, was written, or
/// could not be written.
pub open spec fn past_execution(stage: Stage) -> bool {
    stage is Persisting || stage == Stage::Done(Outcome::Applied) || stage == Stage::Done(
        Outcome::Failed(Failure::Persistence),
    )
}

/// The stage is before the first operation.
pub open spec fn before_execution(stage: Stage) -> bool {
    stage is Validating || stage is Showing || stage is Confirming || stage is Measuring
        || stage is Previewing
}

/// The commit protocol: operations run in order, one after the success of the one before, and
/// the lock record is written only in a run that is no dry run, after every operation has
/// succeeded.
pub proof fn lemma_lock_follows_success(run: RunView, events: Seq<EventView>)
    requires
        run.stage == Stage::Validating || run.stage == Stage::Done(Outcome::UpToDate),
    ensures
        run.after_all(events).well_formed(),
        before_execution(run.after_all(events).stage) ==> succeeded(run, events) == 0,
        run.after_all(events).stage matches Stage::Executing(index) ==> !run.dry_run && succeeded(
            run,
            events,
        ) == index,
        past_execution(run.after_all(events).stage) ==> !run.dry_run && succeeded(run, events)
            == run.steps,
    decreases events.len(),
{
    if events.len() > 0 {
        let earlier = events.drop_last();
        let before = run.after_all(earlier);
        let event = events.last();
        lemma_lock_follows_success(run, earlier);
        lemma_options_stay(run, earlier);
        assert(run.after_all(events) == before.after(event));
        match before.stage {
            Stage::Executing(index) => {
                assert(succeeded(run, earlier) == index);
            },
            _ => {},
        }
    }
}

/// The options of a run and the number of its operations do not change.
pub proof fn lemma_options_stay(run: RunView, events: Seq<EventView>)
    ensures
        run.after_all(events).dry_run == run.dry_run,
        run.after_all(events).no_confirm == run.no_confirm,
        run.after_all(events).steps == run.steps,
    decreases events.len(),
{
    if events.len() > 0 {
        lemma_options_stay(run, events.drop_last());
    }
}

/// How to fetch the repository that holds the desired snapshot, and where the snapshot then is.
#[derive(Debug)]
pub struct Checkout {
    /// What fetches the repository, in order.
    pub actions: Vec<Action>,
    /// The file that holds the desired snapshot.
    pub config: Location,
}

/// What a `Checkout` holds.
#[verifier::ext_equal]
pub struct CheckoutView {
    pub actions: Seq<ActionView>,
    pub config: LocationView,
}

impl DeepView for Checkout {
    type V = CheckoutView;

    open spec fn deep_view(&self) -> CheckoutView {
        CheckoutView { actions: self.actions.deep_view(), config: self.config.deep_view() }
    }
}

impl View for Checkout {
    type V = CheckoutView;

    open spec fn view(&self) -> CheckoutView {
        self.deep_view()
    }
}

/// What a plan for fetching, or the message that says why there is none, holds.
pub open spec fn checkout_result_view(out: Result<Checkout, String>) -> Result<
    CheckoutView,
    Seq<char>,
> {
    match out {
        Ok(checkout) => Ok(checkout.deep_view()),
        Err(message) => Err(message@),
    }
}

/// Running git with the text `first`, the place `dest`, and the texts `rest` as arguments.
pub open spec fn git_at(first: Seq<Seq<char>>, dest: LocationView, rest: Seq<Seq<char>>) -> ActionView {
    ActionView::Run(
        CommandView {
            program: "git"@,
            args: Seq::new(first.len(), |i: int| ArgView::Text(first[i])) + seq![
                ArgView::Path(dest),
            ] + Seq::new(rest.len(), |i: int| ArgView::Text(rest[i])),
            context: None,
            local_path: true,
        },
    )
}

/// Checking out the version that was asked for, if one was.
pub open spec fn checkout_version(dest: LocationView, version: Option<Seq<char>>) -> Seq<
    ActionView,
> {
    match version {
        Some(version) => seq![
            git_at(seq!["-C"@], dest, seq!["fetch"@, "--all"@]),
            git_at(seq!["-C"@], dest, seq!["checkout"@, version]),
        ],
        None => Seq::empty(),
    }
}

/// Where a repository is kept: in the cache below the home directory, under its name.
pub open spec fn cache_of(name: Seq<char>) -> Seq<char> {
    ".oh-my-droid/cache/"@ + name
}

/// How to fetch the repository at `repo_url`, kept under `name`: only an `https://` URL is
/// fetched, and only one that has a name. The repository is cloned where it is not kept yet
/// and updated where it is; then the version is checked out, if one was asked for; and the
/// repository must hold the file of the desired snapshot.
pub open spec fn checkout_of(
    repo_url: Seq<char>,
    version: Option<Seq<char>>,
    name: Option<Seq<char>>,
) -> Result<CheckoutView, Seq<char>> {
    if !has_prefix(repo_url, "https://"@) {
        Err("Unsupported repository URL. Only HTTPS URLs are supported."@)
    } else {
        match name {
            None => Err("Failed to extract repository name"@),
            Some(name) => {
                let dest = LocationView::Home(cache_of(name));
                let config = LocationView::Home(cache_of(name) + "/"@ + CONFIG_FILE@);
                Ok(
                    CheckoutView {
                        actions: seq![
                            ActionView::RequireHome,
                            ActionView::CreateDir {
                                path: LocationView::Home(".oh-my-droid/cache"@),
                                context: None,
                            },
                            shell("type git || (apt update && apt install -y git)"@, None),
                            branch(
                                dest,
                                seq![git_at(seq!["-C"@], dest, seq!["pull"@])],
                                seq![git_at(seq!["clone"@, repo_url], dest, Seq::empty())],
                            ),
                        ] + checkout_version(dest, version) + seq![
                            branch(
                                config,
                                Seq::empty(),
                                seq![
                                    ActionView::Fail(
                                        "The repository does not contain an oh-my-droid.toml configuration file."@,
                                    ),
                                ],
                            ),
                        ],
                        config,
                    },
                )
            },
        }
    }
}

/// The action that runs git with `first`, the place of the repository, and `rest`.
fn git_action(first: &Vec<String>, name: &str, rest: &Vec<String>) -> (action: Action)
    ensures
        action.deep_view() == git_at(
            first.deep_view(),
            LocationView::Home(cache_of(name@)),
            rest.deep_view(),
        ),
{
    let mut args: Vec<Arg> = Vec::new();
    let mut i: usize = 0;
    while i < first.len()
        invariant
            i <= first.len(),
            args.len() == i,
            forall|j: int| 0 <= j < i ==> args[j].deep_view() == ArgView::Text(first[j]@),
        decreases first.len() - i,
    {
        args.push(Arg::Text(first[i].clone()));
        i += 1;
    }
    args.push(Arg::Path(cache_location(name)));
    let mut k: usize = 0;
    while k < rest.len()
        invariant
            k <= rest.len(),
            args.len() == first.len() + 1 + k,
            forall|j: int|
                0 <= j < first.len() ==> args[j].deep_view() == ArgView::Text(first[j]@),
            args[first.len() as int].deep_view() == ArgView::Path(
                LocationView::Home(cache_of(name@)),
            ),
            forall|j: int|
                0 <= j < k ==> args[first.len() + 1 + j].deep_view() == ArgView::Text(rest[j]@),
        decreases rest.len() - k,
    {
        args.push(Arg::Text(rest[k].clone()));
        k += 1;
    }
    let action = run_with("git", args, None);
    assert(action.deep_view() =~~= git_at(
        first.deep_view(),
        LocationView::Home(cache_of(name@)),
        rest.deep_view(),
    ));
    action
}

/// The place where the repository `name` is kept.
fn cache_location(name: &str) -> (place: Location)
    ensures
        place.deep_view() == LocationView::Home(cache_of(name@)),
{
    let mut path = ".oh-my-droid/cache/".to_owned();
    path.append(name);
    Location::Home(path)
}

/// The texts `items`, owned.
fn owned(items: &[&str]) -> (out: Vec<String>)
    ensures
        out.deep_view() == items.deep_view(),
{
    let mut out: Vec<String> = Vec::new();
    let mut i: usize = 0;
    while i < items.len()
        invariant
            i <= items.len(),
            out.len() == i,
            forall|j: int| 0 <= j < i ==> out[j]@ == items[j]@,
        decreases items.len() - i,
    {
        out.push(items[i].to_owned());
        i += 1;
    }
    assert(out.deep_view() =~= items.deep_view());
    out
}

/// Plans the fetching of the repository at `repo_url`, which is kept under `repo_name`.
pub fn checkout_plan(repo_url: &str, version: &Option<String>, repo_name: &Option<String>) -> (out:
    Result<Checkout, String>)
    ensures
        checkout_result_view(out) == checkout_of(
            repo_url@,
            version.deep_view(),
            repo_name.deep_view(),
        ),
{
    if !starts_with(repo_url, "https://") {
        return Err("Unsupported repository URL. Only HTTPS URLs are supported.".to_owned());
    }
    let name: &str = match repo_name {
        Some(name) => name.as_str(),
        None => {
            return Err("Failed to extract repository name".to_owned());
        },
    };
    let ghost dest = LocationView::Home(cache_of(name@));
    let ghost wanted = checkout_of(repo_url@, version.deep_view(), repo_name.deep_view())->Ok_0;

    let mut config_path = ".oh-my-droid/cache/".to_owned();
    config_path.append(name);
    config_path.append("/");
    config_path.append(CONFIG_FILE);
    let config = Location::Home(config_path);
    let config_again = Location::Home(clone_text(&config));

    let nothing_before = owned(&[]);
    let dash_c = owned(&["-C"]);
    let pull = owned(&["pull"]);
    assert(dash_c.deep_view() =~= seq!["-C"@]);
    assert(pull.deep_view() =~= seq!["pull"@]);
    assert(nothing_before.deep_view() =~= Seq::<Seq<char>>::empty());
    let mut clone_args: Vec<String> = Vec::new();
    clone_args.push("clone".to_owned());
    clone_args.push(repo_url.to_owned());
    assert(clone_args.deep_view() =~= seq!["clone"@, repo_url@]);

    let mut there: Vec<Action> = Vec::new();
    there.push(git_action(&dash_c, name, &pull));
    assert(there.deep_view() =~= seq![git_at(seq!["-C"@], dest, seq!["pull"@])]);
    let mut missing: Vec<Action> = Vec::new();
    missing.push(git_action(&clone_args, name, &nothing_before));
    assert(missing.deep_view() =~= seq![git_at(seq!["clone"@, repo_url@], dest, Seq::empty())]);

    let mut actions: Vec<Action> = Vec::new();
    actions.push(Action::RequireHome);
    actions.push(Action::CreateDir { path: in_home(".oh-my-droid/cache"), context: None });
    actions.push(bash("type git || (apt update && apt install -y git)"));
    actions.push(if_exists(cache_location(name), there, missing));
    let ghost head = actions.deep_view();
    if let Some(version) = version {
        let fetch = owned(&["fetch", "--all"]);
        assert(fetch.deep_view() =~= seq!["fetch"@, "--all"@]);
        let mut checkout: Vec<String> = Vec::new();
        checkout.push("checkout".to_owned());
        checkout.push(version.clone());
        assert(checkout.deep_view() =~= seq!["checkout"@, version@]);
        actions.push(git_action(&dash_c, name, &fetch));
        actions.push(git_action(&dash_c, name, &checkout));
    }
    assert(actions.deep_view() =~= head + checkout_version(dest, version.deep_view()));
    let ghost body = actions.deep_view();

    let mut absent: Vec<Action> = Vec::new();
    absent.push(
        Action::Fail(
            "The repository does not contain an oh-my-droid.toml configuration file.".to_owned(),
        ),
    );
    assert(absent.deep_view() =~= seq![
        ActionView::Fail(
            "The repository does not contain an oh-my-droid.toml configuration file."@,
        ),
    ]);
    let no_actions: Vec<Action> = Vec::new();
    assert(no_actions.deep_view() =~= Seq::<ActionView>::empty());
    actions.push(if_exists(config_again, no_actions, absent));
    assert(actions.deep_view() =~= wanted.actions);
    Ok(Checkout { actions, config })
}

/// The path of a place, once more.
fn clone_text(place: &Location) -> (path: String)
    ensures
        path@ == (match place.deep_view() {
            LocationView::Absolute(text) => text,
            LocationView::Home(text) => text,
        }),
{
    match place {
        Location::Absolute(path) => path.clone(),
        Location::Home(path) => path.clone(),
    }
}

/// Plans the fetching of the repository at `repo_url`, which is kept under the name that its
/// URL gives it.
pub fn clone_repo(repo_url: &str, version: &Option<String>) -> (out: Result<Checkout, String>)
    ensures
        checkout_result_view(out) == checkout_of(
            repo_url@,
            version.deep_view(),
            repo_name(url_path_segments(repo_url@)),
        ),
{
    let name = extract_repo_name(repo_url);
    checkout_plan(repo_url, version, &name)
}

/// `text` in bold yellow, as the lines that frame a preview are.
pub open spec fn banner(text: Seq<char>) -> Seq<char> {
    bold(yellow(text))
}

/// The previews of `steps`, each under its number, counted from one.
pub open spec fn numbered_previews(steps: Seq<StepView>) -> Seq<char>
    decreases steps.len(),
{
    if steps.len() == 0 {
        Seq::empty()
    } else {
        numbered_previews(steps.drop_last()) + "\n=> Step "@ + decimal_text(steps.len()) + ":\n"@
            + dry_run_text(steps.last()) + "\n"@
    }
}

/// What a dry run prints: a banner, the number of operations, the preview of each operation
/// under its number, and a closing banner.
pub open spec fn preview_text(steps: Seq<StepView>) -> Seq<char> {
    banner("=== Dry Run: Environment Setup ==="@) + "\n"@ + "Steps to be executed ("@
        + decimal_text(steps.len()) + " total):\n"@ + numbered_previews(steps) + banner(
        "=== Dry Run Complete ==="@,
    ) + "\n"@
}

/// The text that a dry run prints for the operations `steps`.
pub fn preview<'a>(steps: &Vec<SetupStep<'a>>) -> (out: String)
    ensures
        out@ == preview_text(steps.deep_view()),
{
    let ghost all = steps.deep_view();
    let mut numbered = String::new();
    let mut i: usize = 0;
    assert(all.take(0) =~= Seq::<StepView>::empty());
    while i < steps.len()
        invariant
            i <= steps.len(),
            all == steps.deep_view(),
            numbered@ == numbered_previews(all.take(i as int)),
        decreases steps.len() - i,
    {
        proof {
            assert(all.take(i + 1).drop_last() =~= all.take(i as int));
            assert(all.take(i + 1).last() == steps[i as int].deep_view());
        }
        numbered.append("\n=> Step ");
        numbered.append(decimal(i + 1).as_str());
        numbered.append(":\n");
        numbered.append(steps[i].format_dry_run().as_str());
        numbered.append("\n");
        i += 1;
    }
    assert(all.take(i as int) =~= all);
    let mut out = paint_bold(paint_yellow("=== Dry Run: Environment Setup ===").as_str());
    out.append("\n");
    out.append("Steps to be executed (");
    out.append(decimal(steps.len()).as_str());
    out.append(" total):\n");
    out.append(numbered.as_str());
    out.append(paint_bold(paint_yellow("=== Dry Run Complete ===").as_str()).as_str());
    out.append("\n");
    out
}

} // verus!
