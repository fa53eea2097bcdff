//! The processing pipeline: the shared file state, the events that move it,
//! and what the background worker does in each state.

use vstd::prelude::*;

use crate::geometry::ViewModeDomain;

verus! {

/// Where the pipeline stands with the currently selected file.
#[derive(Clone, Copy, Debug, PartialEq, Eq, Structural)]
pub enum FileState {
    /// No file is selected.
    NoFile,
    New,
    Loading,
    Loaded,
    ProcessingFourier,
    ProcessingWavelet,
    ReadySaving,
    Ready,
    Error,
}

/// Something that happened to the pipeline: a request of the consumer, a
/// report of the worker, or the stop signal.
#[derive(Clone, Copy, Debug, PartialEq, Eq, Structural)]
pub enum PipelineEvent {
    /// The consumer selected a file (or cleared the selection).
    FileSelected,
    /// The worker looked at the selection while the state was `New`.
    PathChecked { has_path: bool },
    /// The worker finished reading the file.
    LoadFinished { ok: bool },
    /// The worker began processing the loaded file.
    ProcessingStarted,
    /// The spectral precompute finished.
    SpectralFinished,
    /// The wavelet precompute finished.
    WaveletFinished,
    /// The loaded data was persisted.
    SaveFinished,
    /// The worker was asked to stop.
    Stop,
}

/// How an event was taken.
#[derive(Clone, Copy, Debug, PartialEq, Eq, Structural)]
pub enum Outcome {
    /// The event moved the state (or confirmed it, for a new selection).
    Applied,
    /// The event was issued for a state that is no longer current: its
    /// result is stale and is discarded.
    Stale,
    /// The worker leaves its loop; the state is kept.
    Stopped,
}

/// The state after an event, and how the event was taken.
#[derive(Clone, Copy, Debug, PartialEq, Eq, Structural)]
pub struct Transition {
    pub next: FileState,
    pub outcome: Outcome,
}

/// The state in which an event is expected, for events that the worker
/// reports about a step it started in that state.
pub open spec fn origin(e: PipelineEvent) -> Option<FileState> {
    match e {
        PipelineEvent::PathChecked { .. } => Some(FileState::New),
        PipelineEvent::LoadFinished { .. } => Some(FileState::Loading),
        PipelineEvent::ProcessingStarted => Some(FileState::Loaded),
        PipelineEvent::SpectralFinished => Some(FileState::ProcessingFourier),
        PipelineEvent::WaveletFinished => Some(FileState::ProcessingWavelet),
        PipelineEvent::SaveFinished => Some(FileState::ReadySaving),
        PipelineEvent::FileSelected | PipelineEvent::Stop => None,
    }
}

/// The state that an event leads to when it is taken.
pub open spec fn target(e: PipelineEvent) -> FileState {
    match e {
        PipelineEvent::FileSelected => FileState::New,
        PipelineEvent::PathChecked { has_path } => if has_path {
            FileState::Loading
        } else {
            FileState::NoFile
        },
        PipelineEvent::LoadFinished { ok } => if ok {
            FileState::Loaded
        } else {
            FileState::Error
        },
        PipelineEvent::ProcessingStarted => FileState::ProcessingFourier,
        PipelineEvent::SpectralFinished => FileState::ProcessingWavelet,
        PipelineEvent::WaveletFinished => FileState::ReadySaving,
        PipelineEvent::SaveFinished => FileState::Ready,
        PipelineEvent::Stop => FileState::NoFile,
    }
}

/// The transition table: a selection always restarts at `New`, a stop keeps
/// the state, and a report of the worker is taken only in the state it was
/// started from (a compare-and-swap), else it is stale.
pub open spec fn transition_spec(s: FileState, e: PipelineEvent) -> Transition {
    match e {
        PipelineEvent::FileSelected => Transition { next: FileState::New, outcome: Outcome::Applied },
        PipelineEvent::Stop => Transition { next: s, outcome: Outcome::Stopped },
        _ => if origin(e) == Some(s) {
            Transition { next: target(e), outcome: Outcome::Applied }
        } else {
            Transition { next: s, outcome: Outcome::Stale }
        },
    }
}

/// The one transition of `state` on `event`.
pub fn transition(state: FileState, event: PipelineEvent) -> (r: Transition)
    ensures
        r == transition_spec(state, event),
{
    match event {
        PipelineEvent::FileSelected => Transition { next: FileState::New, outcome: Outcome::Applied },
        PipelineEvent::Stop => Transition { next: state, outcome: Outcome::Stopped },
        PipelineEvent::PathChecked { has_path } => {
            if state == FileState::New {
                let next = if has_path {
                    FileState::Loading
                } else {
                    FileState::NoFile
                };
                Transition { next, outcome: Outcome::Applied }
            } else {
                Transition { next: state, outcome: Outcome::Stale }
            }
        },
        PipelineEvent::LoadFinished { ok } => {
            if state == FileState::Loading {
                let next = if ok {
                    FileState::Loaded
                } else {
                    FileState::Error
                };
                Transition { next, outcome: Outcome::Applied }
            } else {
                Transition { next: state, outcome: Outcome::Stale }
            }
        },
        PipelineEvent::ProcessingStarted => advance_from(
            state,
            FileState::Loaded,
            FileState::ProcessingFourier,
        ),
        PipelineEvent::SpectralFinished => advance_from(
            state,
            FileState::ProcessingFourier,
            FileState::ProcessingWavelet,
        ),
        PipelineEvent::WaveletFinished => advance_from(
            state,
            FileState::ProcessingWavelet,
            FileState::ReadySaving,
        ),
        PipelineEvent::SaveFinished => advance_from(
            state,
            FileState::ReadySaving,
            FileState::Ready,
        ),
    }
}

/// Compare-and-swap of the state: `to` when the state is `from`, else stale.
fn advance_from(state: FileState, from: FileState, to: FileState) -> (r: Transition)
    ensures
        state == from ==> r == (Transition { next: to, outcome: Outcome::Applied }),
        state != from ==> r == (Transition { next: state, outcome: Outcome::Stale }),
{
    if state == from {
        Transition { next: to, outcome: Outcome::Applied }
    } else {
        Transition { next: state, outcome: Outcome::Stale }
    }
}

/// Every state and every event have exactly one transition, and an event is
/// never dropped silently: either it is taken, or the state stays as it was
/// and the event is reported as stale or as a stop.
pub proof fn lemma_transition_total(s: FileState, e: PipelineEvent)
    ensures
        transition_spec(s, e).outcome == Outcome::Applied <==> (e == PipelineEvent::FileSelected
            || origin(e) == Some(s)),
        transition_spec(s, e).outcome == Outcome::Applied ==> transition_spec(s, e).next
            == target(e),
        transition_spec(s, e).outcome != Outcome::Applied ==> transition_spec(s, e).next == s,
        transition_spec(s, e).outcome == Outcome::Stopped <==> e == PipelineEvent::Stop,
{
}

/// `NoFile`, `Ready` and `Error` are left only by a new file selection.
pub proof fn lemma_rest_states_need_selection(s: FileState, e: PipelineEvent)
    requires
        s == FileState::NoFile || s == FileState::Ready || s == FileState::Error,
        e != PipelineEvent::FileSelected,
    ensures
        transition_spec(s, e).next == s,
{
}

/// What the background worker does in one round of its loop.
#[derive(Clone, Copy, Debug, PartialEq, Eq, Structural)]
pub enum WorkerAction {
    /// Leave the loop.
    Exit,
    /// Drop all data of the previous file and park until something changes.
    ClearAndSleep,
    /// Look whether a path was selected and report `PathChecked`.
    CheckPath,
    /// Drop derived data, read the file and report `LoadFinished`.
    Load,
    /// Move on from the loaded file to its processing and report
    /// `ProcessingStarted`.
    StartProcessing,
    /// Compute the spectrum while serving the views that can be served.
    ComputeSpectral,
    /// Compute the antiderivatives while serving the views that can be served.
    ComputeWavelet,
    /// Persist the data while serving the views that can be served.
    Save,
    /// Serve the views once, then park until something changes.
    ServeAndSleep,
}

pub open spec fn worker_action_spec(state: FileState, stop: bool) -> WorkerAction {
    if stop {
        WorkerAction::Exit
    } else {
        match state {
            FileState::NoFile | FileState::Error => WorkerAction::ClearAndSleep,
            FileState::New => WorkerAction::CheckPath,
            FileState::Loading => WorkerAction::Load,
            FileState::Loaded => WorkerAction::StartProcessing,
            FileState::ProcessingFourier => WorkerAction::ComputeSpectral,
            FileState::ProcessingWavelet => WorkerAction::ComputeWavelet,
            FileState::ReadySaving => WorkerAction::Save,
            FileState::Ready => WorkerAction::ServeAndSleep,
        }
    }
}

/// The worker's decision for the current state and stop flag.
pub fn worker_action(state: FileState, stop: bool) -> (r: WorkerAction)
    ensures
        r == worker_action_spec(state, stop),
{
    if stop {
        return WorkerAction::Exit;
    }
    match state {
        FileState::NoFile | FileState::Error => WorkerAction::ClearAndSleep,
        FileState::New => WorkerAction::CheckPath,
        FileState::Loading => WorkerAction::Load,
        FileState::Loaded => WorkerAction::StartProcessing,
        FileState::ProcessingFourier => WorkerAction::ComputeSpectral,
        FileState::ProcessingWavelet => WorkerAction::ComputeWavelet,
        FileState::ReadySaving => WorkerAction::Save,
        FileState::Ready => WorkerAction::ServeAndSleep,
    }
}

/// The event that reports the end of the step that `action` started, given
/// whether it succeeded; `None` for actions that report nothing.
pub open spec fn completion_spec(action: WorkerAction, ok: bool) -> Option<PipelineEvent> {
    match action {
        WorkerAction::CheckPath => Some(PipelineEvent::PathChecked { has_path: ok }),
        WorkerAction::Load => Some(PipelineEvent::LoadFinished { ok }),
        WorkerAction::StartProcessing => Some(PipelineEvent::ProcessingStarted),
        WorkerAction::ComputeSpectral => if ok {
            Some(PipelineEvent::SpectralFinished)
        } else {
            None
        },
        WorkerAction::ComputeWavelet => if ok {
            Some(PipelineEvent::WaveletFinished)
        } else {
            None
        },
        WorkerAction::Save => if ok {
            Some(PipelineEvent::SaveFinished)
        } else {
            None
        },
        _ => None,
    }
}

/// The event to report when the step started by `action` ends; `ok` says
/// whether a path was there (for `CheckPath`) or the step produced a result.
/// A heavy step that was cancelled produces no result and reports nothing.
pub fn completion(action: WorkerAction, ok: bool) -> (r: Option<PipelineEvent>)
    ensures
        r == completion_spec(action, ok),
{
    match action {
        WorkerAction::CheckPath => Some(PipelineEvent::PathChecked { has_path: ok }),
        WorkerAction::Load => Some(PipelineEvent::LoadFinished { ok }),
        WorkerAction::StartProcessing => Some(PipelineEvent::ProcessingStarted),
        WorkerAction::ComputeSpectral => if ok {
            Some(PipelineEvent::SpectralFinished)
        } else {
            None
        },
        WorkerAction::ComputeWavelet => if ok {
            Some(PipelineEvent::WaveletFinished)
        } else {
            None
        },
        WorkerAction::Save => if ok {
            Some(PipelineEvent::SaveFinished)
        } else {
            None
        },
        _ => None,
    }
}

/// A step that the worker started and completed without the state having
/// changed in between is taken; the pipeline then moves one stage on.
pub proof fn lemma_completion_applies(state: FileState, ok: bool)
    requires
        completion_spec(worker_action_spec(state, false), ok) is Some,
    ensures
        transition_spec(state, completion_spec(worker_action_spec(state, false), ok)->0).outcome
            == Outcome::Applied,
{
}

pub open spec fn serves_spec(state: FileState, domain: ViewModeDomain) -> bool {
    match domain {
        ViewModeDomain::TimeView => match state {
            FileState::ProcessingFourier | FileState::ProcessingWavelet | FileState::ReadySaving
            | FileState::Ready => true,
            _ => false,
        },
        ViewModeDomain::FourierView => match state {
            FileState::ProcessingWavelet | FileState::ReadySaving | FileState::Ready => true,
            _ => false,
        },
        ViewModeDomain::FastWaveletView | ViewModeDomain::WaveletView => match state {
            FileState::ReadySaving | FileState::Ready => true,
            _ => false,
        },
    }
}

/// Whether a view of `domain` can be served in `state`: time views once the
/// samples are loaded and processing began, spectral views once the spectrum
/// exists, wavelet views once the antiderivatives exist.
pub fn serves(state: FileState, domain: ViewModeDomain) -> (r: bool)
    ensures
        r == serves_spec(state, domain),
{
    match domain {
        ViewModeDomain::TimeView => match state {
            FileState::ProcessingFourier | FileState::ProcessingWavelet | FileState::ReadySaving
            | FileState::Ready => true,
            _ => false,
        },
        ViewModeDomain::FourierView => match state {
            FileState::ProcessingWavelet | FileState::ReadySaving | FileState::Ready => true,
            _ => false,
        },
        ViewModeDomain::FastWaveletView | ViewModeDomain::WaveletView => match state {
            FileState::ReadySaving | FileState::Ready => true,
            _ => false,
        },
    }
}

} // verus!
