//! Catalog synchronisation: which staged files are copied where, and the run
//! of one synchronisation as a state machine that is fed the outcome of each
//! step and answers with the next one.

use vstd::prelude::*;
use crate::config::{Config, ConfigError, ConfigView};
use crate::paths::{is_image, is_image_path, join, join_path};
use crate::text::views;

verus! {

/// The folder of the staged source whose subdirectories are the categories.
pub const EXPECTED_FOLDER: &'static str = "classified";

/// Why a synchronisation failed.
#[derive(Debug, Clone, Copy, PartialEq, Eq, Structural)]
pub enum SyncError {
    /// The remote source could not be cloned.
    CloneFailed,
    /// The clone holds no expected folder.
    MissingExpectedFolder,
    /// A file could not be copied.
    CopyFailed,
}

/// Why a run ended without success: the synchronisation failed, or it went
/// well and the configuration could not be written after it.
#[derive(Debug, Clone, Copy, PartialEq, Eq, Structural)]
pub enum RunError {
    Sync(SyncError),
    Config(ConfigError),
}

/// One copy: `source` is relative to the expected folder of the staged
/// source, `target` is where the file goes.
#[derive(Debug, Clone, PartialEq, Eq)]
pub struct CopyStep {
    pub source: String,
    pub target: String,
}

/// The mathematical content of a [`CopyStep`].
pub struct CopyStepView {
    pub source: Seq<char>,
    pub target: Seq<char>,
}

impl View for CopyStep {
    type V = CopyStepView;

    open spec fn view(&self) -> CopyStepView {
        CopyStepView { source: self.source@, target: self.target@ }
    }
}

/// The views of a sequence of copies, element by element.
pub open spec fn steps(copies: Seq<CopyStep>) -> Seq<CopyStepView> {
    Seq::new(copies.len(), |i: int| copies[i]@)
}

/// The copy that brings the staged file `source` below `destination`, at the
/// same relative path.
pub open spec fn copy_of(source: Seq<char>, destination: Seq<char>) -> CopyStepView {
    CopyStepView { source, target: join(destination, source) }
}

/// The copies that a listing of the expected folder calls for: one for each
/// image, in the order of the listing, and none for any other file.
pub open spec fn copies_for(files: Seq<Seq<char>>, destination: Seq<char>) -> Seq<CopyStepView> {
    files.filter(|p: Seq<char>| is_image(p)).map_values(|p: Seq<char>| copy_of(p, destination))
}

proof fn lemma_copies_for_push(files: Seq<Seq<char>>, x: Seq<char>, destination: Seq<char>)
    ensures
        copies_for(files.push(x), destination) == if is_image(x) {
            copies_for(files, destination).push(copy_of(x, destination))
        } else {
            copies_for(files, destination)
        },
{
    reveal(Seq::filter);
    let pred = |p: Seq<char>| is_image(p);
    let to_copy = |p: Seq<char>| copy_of(p, destination);
    assert(files.push(x).drop_last() =~= files);
    if is_image(x) {
        assert(files.filter(pred).push(x).map_values(to_copy) =~= files.filter(pred).map_values(
            to_copy,
        ).push(copy_of(x, destination)));
    }
}

/// The copies are exactly the images of the listing: each copy takes an
/// image of the listing to the same relative path below the destination, and
/// each image of the listing has its copy.
pub proof fn lemma_copies_exact(files: Seq<Seq<char>>, destination: Seq<char>)
    ensures
        copies_for(files, destination).len() <= files.len(),
        forall|i: int|
            0 <= i < copies_for(files, destination).len() ==> {
                let step = #[trigger] copies_for(files, destination)[i];
                &&& is_image(step.source)
                &&& files.contains(step.source)
                &&& step.target == join(destination, step.source)
            },
        forall|j: int|
            0 <= j < files.len() && is_image(#[trigger] files[j]) ==> copies_for(
                files,
                destination,
            ).contains(copy_of(files[j], destination)),
    decreases files.len(),
{
    if files.len() == 0 {
        reveal(Seq::filter);
    } else {
        let rest = files.drop_last();
        let x = files.last();
        lemma_copies_exact(rest, destination);
        assert(rest.push(x) =~= files);
        lemma_copies_for_push(rest, x, destination);
        let all = copies_for(files, destination);
        let before = copies_for(rest, destination);
        assert forall|i: int| 0 <= i < all.len() implies {
            let step = #[trigger] all[i];
            &&& is_image(step.source)
            &&& files.contains(step.source)
            &&& step.target == join(destination, step.source)
        } by {
            if i < before.len() {
                let k = choose|k: int| 0 <= k < rest.len() && rest[k] == before[i].source;
                assert(files[k] == before[i].source);
            } else {
                assert(files[files.len() - 1] == x);
            }
        }
        assert forall|j: int| 0 <= j < files.len() && is_image(#[trigger] files[j]) implies all.contains(
            copy_of(files[j], destination),
        ) by {
            if j < rest.len() {
                let k = choose|k: int|
                    0 <= k < before.len() && before[k] == copy_of(files[j], destination);
                assert(all[k] == before[k]);
            } else {
                assert(all[all.len() - 1] == copy_of(x, destination));
            }
        }
    }
}

/// The copies that the listing `files` of the expected folder calls for.
pub fn plan_copies(files: &Vec<String>, destination: &str) -> (copies: Vec<CopyStep>)
    ensures
        steps(copies@) == copies_for(views(files@), destination@),
{
    let ghost all = views(files@);
    let mut copies: Vec<CopyStep> = Vec::new();
    let mut i: usize = 0;
    proof {
        reveal(Seq::filter);
    }
    while i < files.len()
        invariant
            i <= files.len(),
            all == views(files@),
            steps(copies@) == copies_for(all.subrange(0, i as int), destination@),
        decreases files.len() - i,
    {
        let file: &String = &files[i];
        proof {
            assert(all.subrange(0, i + 1) =~= all.subrange(0, i as int).push(all[i as int]));
            lemma_copies_for_push(all.subrange(0, i as int), all[i as int], destination@);
        }
        if is_image_path(file.as_str()) {
            let step = CopyStep { source: file.clone(), target: join_path(destination, file.as_str()) };
            copies.push(step);
        }
        i += 1;
    }
    assert(all.subrange(0, i as int) =~= all);
    copies
}

/// Where a synchronisation stands: what it is waiting for.
#[derive(Debug, Clone, Copy, PartialEq, Eq, Structural)]
pub enum SyncPhase {
    /// For the staging area to be made anew, empty.
    Staging,
    /// For the clone of the remote source into the staging area.
    Cloning,
    /// For the listing of the expected folder.
    Listing,
    /// For one copy.
    Copying,
    /// For the staging area to be removed.
    Cleaning,
    /// For the destination to be written to the configuration.
    Saving,
    /// For nothing: the run is over.
    Finished,
}

/// What happened outside, as the run is told.
#[derive(Debug, Clone, PartialEq, Eq)]
pub enum SyncEvent {
    /// The staging area stands, empty.
    StagingReady,
    /// The clone ended, well or not.
    CloneEnded { success: bool },
    /// The expected folder was looked for: `None` where the clone has none,
    /// else the path of every regular file below it, relative to it.
    Listed { files: Option<Vec<String>> },
    /// The copy that was asked for ended, well or not.
    CopyEnded { success: bool },
    /// The staging area is gone.
    StagingRemoved,
    /// The writing of the configuration ended, well or not.
    ConfigSaved { success: bool },
}

/// What the run asks to be done next.
#[derive(Debug, PartialEq, Eq)]
pub enum SyncAction {
    /// Make the staging area anew, empty.
    PrepareStaging,
    /// Clone the remote source into the staging area.
    Clone,
    /// List the files below the expected folder of the clone.
    ListExpectedFolder,
    /// Make this copy, over whatever stands at its target.
    Copy(CopyStep),
    /// Remove the staging area.
    RemoveStaging,
    /// Write this configuration in place of the stored one.
    SaveConfig(Config),
    /// Nothing more: the run came to this.
    Finish(Result<usize, RunError>),
}

/// The mathematical content of a [`SyncAction`].
pub enum SyncActionView {
    PrepareStaging,
    Clone,
    ListExpectedFolder,
    Copy(CopyStepView),
    RemoveStaging,
    SaveConfig(ConfigView),
    Finish(Result<usize, RunError>),
}

impl View for SyncAction {
    type V = SyncActionView;

    open spec fn view(&self) -> SyncActionView {
        match self {
            SyncAction::PrepareStaging => SyncActionView::PrepareStaging,
            SyncAction::Clone => SyncActionView::Clone,
            SyncAction::ListExpectedFolder => SyncActionView::ListExpectedFolder,
            SyncAction::Copy(step) => SyncActionView::Copy(step@),
            SyncAction::RemoveStaging => SyncActionView::RemoveStaging,
            SyncAction::SaveConfig(config) => SyncActionView::SaveConfig(config@),
            SyncAction::Finish(outcome) => SyncActionView::Finish(*outcome),
        }
    }
}

/// One synchronisation into `destination`, from its start to its end. It
/// carries the cycle interval that the configuration is to keep.
#[derive(Debug, PartialEq, Eq)]
pub struct SyncRun {
    destination: String,
    interval: u64,
    phase: SyncPhase,
    copies: Vec<CopyStep>,
    done: usize,
    failure: Option<RunError>,
}

/// The mathematical content of a [`SyncRun`].
pub struct SyncRunView {
    pub destination: Seq<char>,
    /// The cycle interval that the saved configuration keeps.
    pub interval: u64,
    pub phase: SyncPhase,
    /// The copies that the listing called for; none before the listing.
    pub copies: Seq<CopyStepView>,
    /// How many of them are made.
    pub done: usize,
    /// Why the run failed, once it has.
    pub failure: Option<RunError>,
}

impl View for SyncRun {
    type V = SyncRunView;

    closed spec fn view(&self) -> SyncRunView {
        SyncRunView {
            destination: self.destination@,
            interval: self.interval,
            phase: self.phase,
            copies: steps(self.copies@),
            done: self.done,
            failure: self.failure,
        }
    }
}

/// What holds of every run: no more copies are made than planned, and no
/// more are planned than can be counted; before
/// the listing nothing is planned, made or failed; a copy is awaited only
/// while one is left and nothing has failed; and once the copying is over
/// without a failure, every planned copy is made.
pub open spec fn consistent(run: SyncRunView) -> bool {
    &&& run.done <= run.copies.len() <= usize::MAX
    &&& (run.phase == SyncPhase::Staging || run.phase == SyncPhase::Cloning || run.phase
        == SyncPhase::Listing) ==> run.copies.len() == 0 && run.done == 0 && run.failure is None
    &&& run.phase == SyncPhase::Copying ==> run.done < run.copies.len() && run.failure is None
    &&& run.phase == SyncPhase::Saving ==> run.failure is None
    &&& (run.phase == SyncPhase::Cleaning || run.phase == SyncPhase::Saving || run.phase
        == SyncPhase::Finished) && run.failure is None ==> run.done == run.copies.len()
}

/// A run that has not begun.
pub open spec fn initial(destination: Seq<char>, interval: u64) -> SyncRunView {
    SyncRunView {
        destination,
        interval,
        phase: SyncPhase::Staging,
        copies: Seq::empty(),
        done: 0,
        failure: None,
    }
}

/// The run after a failure: nothing is left but to clean up.
pub open spec fn failed(run: SyncRunView, error: SyncError) -> SyncRunView {
    SyncRunView { phase: SyncPhase::Cleaning, failure: Some(RunError::Sync(error)), ..run }
}

/// The run after `event`. An event that does not answer what the run is
/// waiting for changes nothing.
pub open spec fn advance(run: SyncRunView, event: SyncEvent) -> SyncRunView {
    match (run.phase, event) {
        (SyncPhase::Staging, SyncEvent::StagingReady) => SyncRunView {
            phase: SyncPhase::Cloning,
            ..run
        },
        (SyncPhase::Cloning, SyncEvent::CloneEnded { success }) => if success {
            SyncRunView { phase: SyncPhase::Listing, ..run }
        } else {
            failed(run, SyncError::CloneFailed)
        },
        (SyncPhase::Listing, SyncEvent::Listed { files: None }) => failed(
            run,
            SyncError::MissingExpectedFolder,
        ),
        (SyncPhase::Listing, SyncEvent::Listed { files: Some(files) }) => {
            let copies = copies_for(views(files@), run.destination);
            SyncRunView {
                phase: if copies.len() == 0 {
                    SyncPhase::Cleaning
                } else {
                    SyncPhase::Copying
                },
                copies,
                ..run
            }
        },
        (SyncPhase::Copying, SyncEvent::CopyEnded { success }) => if !success {
            failed(run, SyncError::CopyFailed)
        } else if run.done + 1 == run.copies.len() {
            SyncRunView { phase: SyncPhase::Cleaning, done: (run.done + 1) as usize, ..run }
        } else {
            SyncRunView { done: (run.done + 1) as usize, ..run }
        },
        (SyncPhase::Cleaning, SyncEvent::StagingRemoved) => SyncRunView {
            phase: if run.failure is None {
                SyncPhase::Saving
            } else {
                SyncPhase::Finished
            },
            ..run
        },
        (SyncPhase::Saving, SyncEvent::ConfigSaved { success }) => SyncRunView {
            phase: SyncPhase::Finished,
            failure: if success {
                None
            } else {
                Some(RunError::Config(ConfigError::WriteFailed))
            },
            ..run
        },
        _ => run,
    }
}

/// What a run comes to: the number of copies made, or why it failed.
pub open spec fn outcome_of(run: SyncRunView) -> Result<usize, RunError> {
    match run.failure {
        Some(error) => Err(error),
        None => Ok(run.done),
    }
}

/// What the run is waiting for. The configuration that a successful run
/// stores holds the destination and the interval that the run carries: the
/// sync sets the wallpaper root and leaves the interval as it was.
pub open spec fn pending_action(run: SyncRunView) -> SyncActionView {
    match run.phase {
        SyncPhase::Staging => SyncActionView::PrepareStaging,
        SyncPhase::Cloning => SyncActionView::Clone,
        SyncPhase::Listing => SyncActionView::ListExpectedFolder,
        SyncPhase::Copying => SyncActionView::Copy(run.copies[run.done as int]),
        SyncPhase::Cleaning => SyncActionView::RemoveStaging,
        SyncPhase::Saving => SyncActionView::SaveConfig(
            ConfigView { wallpaper_dir: run.destination, cycle_interval: run.interval },
        ),
        SyncPhase::Finished => SyncActionView::Finish(outcome_of(run)),
    }
}

/// Every step keeps a run consistent.
pub proof fn lemma_advance_consistent(run: SyncRunView, event: SyncEvent)
    requires
        consistent(run),
    ensures
        consistent(advance(run, event)),
{
    if let SyncEvent::Listed { files: Some(files) } = event {
        lemma_copies_exact(views(files@), run.destination);
        assert(views(files@).len() == files.len());
    }
}

/// A run that ends well has made every copy that its listing called for, and
/// reports their number.
pub proof fn lemma_success_counts_every_copy(run: SyncRunView)
    requires
        consistent(run),
        run.phase == SyncPhase::Finished,
        outcome_of(run) is Ok,
    ensures
        outcome_of(run) == Ok::<usize, RunError>(run.copies.len() as usize),
{
}

/// No run ends with the staging area in place: a run finishes only from the
/// removal of the staging area or, after that removal, from the writing of
/// the configuration, done or failed; and this holds of failed runs as of
/// successful ones.
pub proof fn lemma_finish_follows_cleanup(run: SyncRunView, event: SyncEvent)
    ensures
        advance(run, event).phase == SyncPhase::Finished ==> run.phase == SyncPhase::Finished || (
        run.phase == SyncPhase::Cleaning && event == SyncEvent::StagingRemoved) || (run.phase
            == SyncPhase::Saving && event is ConfigSaved),
        advance(run, event).phase == SyncPhase::Saving ==> run.phase == SyncPhase::Saving || (
        run.phase == SyncPhase::Cleaning && event == SyncEvent::StagingRemoved),
{
}

/// A failure is never forgotten, and neither the destination nor the
/// interval ever changes.
pub proof fn lemma_failure_is_kept(run: SyncRunView, event: SyncEvent)
    requires
        consistent(run),
    ensures
        run.failure is Some ==> advance(run, event).failure == run.failure,
        advance(run, event).destination == run.destination,
        advance(run, event).interval == run.interval,
{
}

impl SyncRun {
    #[verifier::type_invariant]
    spec fn sound(self) -> bool {
        consistent(self@)
    }

    /// A run into `destination`, about to begin, that keeps `interval` as the
    /// cycle interval of the configuration.
    pub fn new(destination: String, interval: u64) -> (run: SyncRun)
        ensures
            run@ == initial(destination@, interval),
    {
        let run = SyncRun {
            destination,
            interval,
            phase: SyncPhase::Staging,
            copies: Vec::new(),
            done: 0,
            failure: None,
        };
        assert(run@.copies =~= Seq::empty());
        run
    }

    /// Where the wallpapers go.
    pub fn destination(&self) -> (destination: &String)
        ensures
            destination@ == self@.destination,
    {
        &self.destination
    }

    /// The cycle interval that the saved configuration keeps.
    pub fn interval(&self) -> (seconds: u64)
        ensures
            seconds == self@.interval,
    {
        self.interval
    }

    /// Where the run stands.
    pub fn phase(&self) -> (phase: SyncPhase)
        ensures
            phase == self@.phase,
            consistent(self@),
    {
        proof {
            use_type_invariant(self);
        }
        self.phase
    }

    /// What the run has come to so far: the copies made, or the failure.
    pub fn outcome(&self) -> (outcome: Result<usize, RunError>)
        ensures
            outcome == outcome_of(self@),
    {
        match self.failure {
            Some(error) => Err(error),
            None => Ok(self.done),
        }
    }

    /// What the run is waiting for.
    pub fn pending(&self) -> (action: SyncAction)
        ensures
            action@ == pending_action(self@),
    {
        proof {
            use_type_invariant(self);
        }
        match self.phase {
            SyncPhase::Staging => SyncAction::PrepareStaging,
            SyncPhase::Cloning => SyncAction::Clone,
            SyncPhase::Listing => SyncAction::ListExpectedFolder,
            SyncPhase::Copying => {
                let step = &self.copies[self.done];
                SyncAction::Copy(CopyStep { source: step.source.clone(), target: step.target.clone() })
            },
            SyncPhase::Cleaning => SyncAction::RemoveStaging,
            SyncPhase::Saving => SyncAction::SaveConfig(
                Config { wallpaper_dir: self.destination.clone(), cycle_interval: self.interval },
            ),
            SyncPhase::Finished => SyncAction::Finish(self.outcome()),
        }
    }

    /// Takes in what happened and says what is to be done next.
    pub fn step(self, event: SyncEvent) -> (next: (SyncRun, SyncAction))
        ensures
            next.0@ == advance(self@, event),
            next.1@ == pending_action(next.0@),
    {
        proof {
            use_type_invariant(&self);
            lemma_advance_consistent(self@, event);
        }
        let SyncRun { destination, interval, phase, copies, done, failure } = self;
        let run = match phase {
            SyncPhase::Staging => match event {
                SyncEvent::StagingReady => SyncRun {
                    destination,
                    interval,
                    phase: SyncPhase::Cloning,
                    copies,
                    done,
                    failure,
                },
                _ => SyncRun { destination, interval, phase, copies, done, failure },
            },
            SyncPhase::Cloning => match event {
                SyncEvent::CloneEnded { success } => if success {
                    SyncRun { destination, interval, phase: SyncPhase::Listing, copies, done, failure }
                } else {
                    SyncRun {
                        destination,
                        interval,
                        phase: SyncPhase::Cleaning,
                        copies,
                        done,
                        failure: Some(RunError::Sync(SyncError::CloneFailed)),
                    }
                },
                _ => SyncRun { destination, interval, phase, copies, done, failure },
            },
            SyncPhase::Listing => match event {
                SyncEvent::Listed { files: None } => SyncRun {
                    destination,
                    interval,
                    phase: SyncPhase::Cleaning,
                    copies,
                    done,
                    failure: Some(RunError::Sync(SyncError::MissingExpectedFolder)),
                },
                SyncEvent::Listed { files: Some(files) } => {
                    let planned = plan_copies(&files, destination.as_str());
                    let next_phase = if planned.len() == 0 {
                        SyncPhase::Cleaning
                    } else {
                        SyncPhase::Copying
                    };
                    SyncRun { destination, interval, phase: next_phase, copies: planned, done, failure }
                },
                _ => SyncRun { destination, interval, phase, copies, done, failure },
            },
            SyncPhase::Copying => match event {
                SyncEvent::CopyEnded { success } => if !success {
                    SyncRun {
                        destination,
                        interval,
                        phase: SyncPhase::Cleaning,
                        copies,
                        done,
                        failure: Some(RunError::Sync(SyncError::CopyFailed)),
                    }
                } else if done + 1 == copies.len() {
                    SyncRun { destination, interval, phase: SyncPhase::Cleaning, copies, done: done + 1, failure }
                } else {
                    SyncRun { destination, interval, phase, copies, done: done + 1, failure }
                },
                _ => SyncRun { destination, interval, phase, copies, done, failure },
            },
            SyncPhase::Cleaning => match event {
                SyncEvent::StagingRemoved => {
                    let next_phase = if failure.is_none() {
                        SyncPhase::Saving
                    } else {
                        SyncPhase::Finished
                    };
                    SyncRun { destination, interval, phase: next_phase, copies, done, failure }
                },
                _ => SyncRun { destination, interval, phase, copies, done, failure },
            },
            SyncPhase::Saving => match event {
                SyncEvent::ConfigSaved { success } => SyncRun {
                    destination,
                    interval,
                    phase: SyncPhase::Finished,
                    copies,
                    done,
                    failure: if success {
                        None
                    } else {
                        Some(RunError::Config(ConfigError::WriteFailed))
                    },
                },
                _ => SyncRun { destination, interval, phase, copies, done, failure },
            },
            SyncPhase::Finished => SyncRun { destination, interval, phase, copies, done, failure },
        };
        let action = run.pending();
        (run, action)
    }
}

} // verus!
