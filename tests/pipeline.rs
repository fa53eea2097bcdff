use thermo_transform::geometry::ViewModeDomain;
use thermo_transform::state::{
    completion, serves, transition, worker_action, FileState, Outcome, PipelineEvent,
    Transition, WorkerAction,
};

fn all_states() -> Vec<FileState> {
    vec![
        FileState::NoFile,
        FileState::New,
        FileState::Loading,
        FileState::Loaded,
        FileState::ProcessingFourier,
        FileState::ProcessingWavelet,
        FileState::ReadySaving,
        FileState::Ready,
        FileState::Error,
    ]
}

fn all_events() -> Vec<PipelineEvent> {
    vec![
        PipelineEvent::FileSelected,
        PipelineEvent::PathChecked { has_path: true },
        PipelineEvent::PathChecked { has_path: false },
        PipelineEvent::LoadFinished { ok: true },
        PipelineEvent::LoadFinished { ok: false },
        PipelineEvent::ProcessingStarted,
        PipelineEvent::SpectralFinished,
        PipelineEvent::WaveletFinished,
        PipelineEvent::SaveFinished,
        PipelineEvent::Stop,
    ]
}

#[test]
fn every_state_and_event_has_one_reported_transition() {
    for s in all_states() {
        for e in all_events() {
            let t = transition(s, e);
            assert_eq!(t, transition(s, e));
            if t.outcome != Outcome::Applied {
                assert_eq!(t.next, s);
            }
            assert_eq!(t.outcome == Outcome::Stopped, e == PipelineEvent::Stop);
        }
    }
}

#[test]
fn happy_path_reaches_ready() {
    let mut s = FileState::NoFile;
    for e in [
        PipelineEvent::FileSelected,
        PipelineEvent::PathChecked { has_path: true },
        PipelineEvent::LoadFinished { ok: true },
        PipelineEvent::ProcessingStarted,
        PipelineEvent::SpectralFinished,
        PipelineEvent::WaveletFinished,
        PipelineEvent::SaveFinished,
    ] {
        let t = transition(s, e);
        assert_eq!(t.outcome, Outcome::Applied);
        s = t.next;
    }
    assert_eq!(s, FileState::Ready);
}

#[test]
fn load_failure_goes_to_error_and_needs_a_new_selection() {
    let t = transition(FileState::Loading, PipelineEvent::LoadFinished { ok: false });
    assert_eq!(t, Transition { next: FileState::Error, outcome: Outcome::Applied });
    for e in all_events() {
        if e != PipelineEvent::FileSelected {
            assert_eq!(transition(FileState::Error, e).next, FileState::Error);
            assert_eq!(transition(FileState::Ready, e).next, FileState::Ready);
            assert_eq!(transition(FileState::NoFile, e).next, FileState::NoFile);
        }
    }
    assert_eq!(transition(FileState::Error, PipelineEvent::FileSelected).next, FileState::New);
}

#[test]
fn stale_completion_is_discarded() {
    // the consumer selected a new file while the spectrum was being computed
    let t = transition(FileState::New, PipelineEvent::SpectralFinished);
    assert_eq!(t, Transition { next: FileState::New, outcome: Outcome::Stale });
    let t = transition(FileState::Loading, PipelineEvent::WaveletFinished);
    assert_eq!(t.outcome, Outcome::Stale);
}

#[test]
fn empty_selection_returns_to_no_file() {
    let t = transition(FileState::New, PipelineEvent::PathChecked { has_path: false });
    assert_eq!(t.next, FileState::NoFile);
}

#[test]
fn worker_actions_follow_the_state() {
    assert_eq!(worker_action(FileState::Ready, true), WorkerAction::Exit);
    assert_eq!(worker_action(FileState::NoFile, false), WorkerAction::ClearAndSleep);
    assert_eq!(worker_action(FileState::Error, false), WorkerAction::ClearAndSleep);
    assert_eq!(worker_action(FileState::New, false), WorkerAction::CheckPath);
    assert_eq!(worker_action(FileState::Loading, false), WorkerAction::Load);
    assert_eq!(worker_action(FileState::Loaded, false), WorkerAction::StartProcessing);
    assert_eq!(worker_action(FileState::ProcessingFourier, false), WorkerAction::ComputeSpectral);
    assert_eq!(worker_action(FileState::ProcessingWavelet, false), WorkerAction::ComputeWavelet);
    assert_eq!(worker_action(FileState::ReadySaving, false), WorkerAction::Save);
    assert_eq!(worker_action(FileState::Ready, false), WorkerAction::ServeAndSleep);
}

#[test]
fn completions_move_the_pipeline_on() {
    for s in all_states() {
        let a = worker_action(s, false);
        for ok in [true, false] {
            if let Some(e) = completion(a, ok) {
                assert_eq!(transition(s, e).outcome, Outcome::Applied);
            }
        }
    }
    assert_eq!(completion(WorkerAction::ComputeSpectral, false), None);
    assert_eq!(completion(WorkerAction::Load, false), Some(PipelineEvent::LoadFinished { ok: false }));
}

#[test]
fn views_are_served_once_their_data_exists() {
    assert!(!serves(FileState::Loaded, ViewModeDomain::TimeView));
    assert!(serves(FileState::ProcessingFourier, ViewModeDomain::TimeView));
    assert!(!serves(FileState::ProcessingFourier, ViewModeDomain::FourierView));
    assert!(serves(FileState::ProcessingWavelet, ViewModeDomain::FourierView));
    assert!(!serves(FileState::ProcessingWavelet, ViewModeDomain::FastWaveletView));
    assert!(serves(FileState::ReadySaving, ViewModeDomain::FastWaveletView));
    assert!(serves(FileState::Ready, ViewModeDomain::WaveletView));
    assert!(!serves(FileState::Error, ViewModeDomain::TimeView));
}
