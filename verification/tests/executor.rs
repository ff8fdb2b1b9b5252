use self_update_example::executor::{
    backoff_delay, UpdateAction, UpdateError, UpdateEvent, UpdateExecutor, UpdateState,
};

#[test]
fn happy_path_reaches_done() {
    let mut m = UpdateExecutor::new(100, 3);
    assert_eq!(m.state, UpdateState::Idle);
    assert_eq!(m.step(UpdateEvent::Start), UpdateAction::BeginDownload);
    assert_eq!(m.state, UpdateState::Downloading { attempt: 1 });
    assert_eq!(
        m.step(UpdateEvent::DownloadSucceeded { size: 100 }),
        UpdateAction::RunVerification
    );
    assert_eq!(m.state, UpdateState::Verifying { actual_size: 100 });
    assert_eq!(
        m.step(UpdateEvent::ChecksumOutcome { passed: true }),
        UpdateAction::StageArtifact
    );
    assert_eq!(m.state, UpdateState::Staging);
    assert_eq!(
        m.step(UpdateEvent::StagingSucceeded),
        UpdateAction::PerformSwap
    );
    assert_eq!(m.state, UpdateState::Swapping);
    assert_eq!(m.step(UpdateEvent::SwapSucceeded), UpdateAction::NoAction);
    assert_eq!(m.state, UpdateState::Done);
}

#[test]
fn size_mismatch_rejected_in_verifying() {
    let mut m = UpdateExecutor::new(100, 3);
    m.step(UpdateEvent::Start);
    m.step(UpdateEvent::DownloadSucceeded { size: 99 });
    assert_eq!(m.state, UpdateState::Verifying { actual_size: 99 });
    assert_eq!(
        m.step(UpdateEvent::ChecksumOutcome { passed: true }),
        UpdateAction::DeleteTempArtifact
    );
    assert_eq!(
        m.state,
        UpdateState::Failed {
            error: UpdateError::VerificationError
        }
    );
}

#[test]
fn failed_external_check_rejected_in_verifying() {
    let mut m = UpdateExecutor::new(100, 3);
    m.step(UpdateEvent::Start);
    m.step(UpdateEvent::DownloadSucceeded { size: 100 });
    assert_eq!(
        m.step(UpdateEvent::ChecksumOutcome { passed: false }),
        UpdateAction::DeleteTempArtifact
    );
    assert_eq!(
        m.state,
        UpdateState::Failed {
            error: UpdateError::VerificationError
        }
    );
}

#[test]
fn download_retries_with_growing_delay_then_gives_up() {
    let mut m = UpdateExecutor::new(100, 3);
    m.step(UpdateEvent::Start);
    assert_eq!(
        m.step(UpdateEvent::DownloadFailed),
        UpdateAction::RetryDownload { delay_ms: 500 }
    );
    assert_eq!(m.state, UpdateState::Downloading { attempt: 2 });
    assert_eq!(
        m.step(UpdateEvent::DownloadFailed),
        UpdateAction::RetryDownload { delay_ms: 1000 }
    );
    assert_eq!(m.state, UpdateState::Downloading { attempt: 3 });
    assert_eq!(
        m.step(UpdateEvent::DownloadFailed),
        UpdateAction::DeleteTempArtifact
    );
    assert_eq!(
        m.state,
        UpdateState::Failed {
            error: UpdateError::DownloadError
        }
    );
}

#[test]
fn backoff_doubles_and_caps() {
    assert_eq!(backoff_delay(1), 500);
    assert_eq!(backoff_delay(2), 1000);
    assert_eq!(backoff_delay(6), 16000);
    assert_eq!(backoff_delay(7), 30000);
    assert_eq!(backoff_delay(20), 30000);
}

#[test]
fn staging_failure_aborts_without_swap() {
    let mut m = UpdateExecutor::new(100, 3);
    m.step(UpdateEvent::Start);
    m.step(UpdateEvent::DownloadSucceeded { size: 100 });
    m.step(UpdateEvent::ChecksumOutcome { passed: true });
    assert_eq!(
        m.step(UpdateEvent::StagingFailed),
        UpdateAction::DeleteTempArtifact
    );
    assert_eq!(
        m.state,
        UpdateState::Failed {
            error: UpdateError::VerificationError
        }
    );
}

#[test]
fn swap_failure_retains_staged_artifact() {
    let mut m = UpdateExecutor::new(100, 3);
    m.step(UpdateEvent::Start);
    m.step(UpdateEvent::DownloadSucceeded { size: 100 });
    m.step(UpdateEvent::ChecksumOutcome { passed: true });
    m.step(UpdateEvent::StagingSucceeded);
    assert_eq!(
        m.step(UpdateEvent::SwapFailed),
        UpdateAction::KeepStagedArtifact
    );
    assert_eq!(
        m.state,
        UpdateState::Failed {
            error: UpdateError::SwapError
        }
    );
}

#[test]
fn events_outside_their_state_change_nothing() {
    let mut m = UpdateExecutor::new(100, 3);
    assert_eq!(m.step(UpdateEvent::SwapSucceeded), UpdateAction::NoAction);
    assert_eq!(m.state, UpdateState::Idle);
    m.step(UpdateEvent::Start);
    assert_eq!(m.step(UpdateEvent::StagingSucceeded), UpdateAction::NoAction);
    assert_eq!(m.state, UpdateState::Downloading { attempt: 1 });
}
