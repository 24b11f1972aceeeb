use uptodate::summary::{completion_message, source_state_after, status_icon, RunSummary};
use uptodate::updater::{SourceState, UpdateEvent};

#[test]
fn completion_messages() {
    assert_eq!(completion_message(0, 0), "No updates were performed");
    assert_eq!(completion_message(3, 0), "Successfully updated 3 package manager(s)");
    assert_eq!(completion_message(0, 2), "Failed to update 2 package manager(s)");
    assert_eq!(completion_message(11, 1), "Updated 11 package manager(s), 1 failed");
}

#[test]
fn summary_counts_completed_sources_by_outcome() {
    let events = vec![
        UpdateEvent::Started,
        UpdateEvent::SourceStarted("apt".to_string()),
        UpdateEvent::SourceError("apt".to_string(), "refused".to_string()),
        UpdateEvent::SourceCompleted("apt".to_string(), false),
        UpdateEvent::SourceStarted("flatpak".to_string()),
        UpdateEvent::SourceProgress("flatpak".to_string(), "line".to_string()),
        UpdateEvent::SourceCompleted("flatpak".to_string(), true),
        UpdateEvent::SourceStarted("rustup".to_string()),
        UpdateEvent::Error("Failed to run rustup: gone".to_string()),
        UpdateEvent::SourceCompleted("rustup".to_string(), false),
        UpdateEvent::Completed(false),
    ];
    let summary = RunSummary::of_events(&events);
    assert_eq!(summary, RunSummary { completed: 1, failed: 2 });
    assert_eq!(summary.message(), "Updated 1 package manager(s), 2 failed");

    let mut stepwise = RunSummary::new();
    for event in events.iter() {
        stepwise.observe(event);
    }
    assert_eq!(stepwise, summary);
    assert_eq!(RunSummary::of_events(&[]), RunSummary { completed: 0, failed: 0 });
}

#[test]
fn summary_counts_stop_at_the_largest_word() {
    let mut summary = RunSummary { completed: usize::MAX, failed: usize::MAX - 1 };
    summary.observe(&UpdateEvent::SourceCompleted("a".to_string(), true));
    summary.observe(&UpdateEvent::SourceCompleted("a".to_string(), false));
    summary.observe(&UpdateEvent::SourceCompleted("a".to_string(), false));
    assert_eq!(summary, RunSummary { completed: usize::MAX, failed: usize::MAX });
}

#[test]
fn events_set_the_state_of_their_source() {
    assert_eq!(source_state_after(&UpdateEvent::Started), None);
    assert_eq!(source_state_after(&UpdateEvent::Progress("x".to_string())), None);
    assert_eq!(source_state_after(&UpdateEvent::Completed(true)), None);
    assert_eq!(source_state_after(&UpdateEvent::Error("x".to_string())), None);
    assert_eq!(
        source_state_after(&UpdateEvent::SourceStarted("snap".to_string())),
        Some(("snap".to_string(), SourceState::Running))
    );
    assert_eq!(
        source_state_after(&UpdateEvent::SourceProgress("snap".to_string(), "x".to_string())),
        Some(("snap".to_string(), SourceState::Running))
    );
    assert_eq!(
        source_state_after(&UpdateEvent::SourceError("snap".to_string(), "x".to_string())),
        Some(("snap".to_string(), SourceState::Failed))
    );
    assert_eq!(
        source_state_after(&UpdateEvent::SourceCompleted("snap".to_string(), true)),
        Some(("snap".to_string(), SourceState::Success))
    );
    assert_eq!(
        source_state_after(&UpdateEvent::SourceCompleted("snap".to_string(), false)),
        Some(("snap".to_string(), SourceState::Failed))
    );
}

#[test]
fn icons_for_states() {
    assert_eq!(status_icon(&SourceState::Idle), ("emblem-default-symbolic", ""));
    assert_eq!(status_icon(&SourceState::Running), ("process-working-symbolic", "running"));
    assert_eq!(status_icon(&SourceState::Success), ("emblem-ok-symbolic", "success"));
    assert_eq!(status_icon(&SourceState::Failed), ("dialog-error-symbolic", "error"));
}
