use chronos::lifecycle::can_transition;
use chronos::models::{CategoryStatus, Kind, TaskStatus};

#[test]
fn whitelist_allows_the_documented_transitions() {
    assert!(can_transition(TaskStatus::NotInitialized, TaskStatus::ToDo));
    assert!(can_transition(TaskStatus::NotInitialized, TaskStatus::InProgress));
    assert!(can_transition(TaskStatus::ToDo, TaskStatus::InProgress));
    assert!(can_transition(TaskStatus::InProgress, TaskStatus::Done));
    assert!(can_transition(TaskStatus::Done, TaskStatus::InProgress));
}

#[test]
fn whitelist_refuses_everything_else() {
    assert!(!can_transition(TaskStatus::ToDo, TaskStatus::Done));
    assert!(!can_transition(TaskStatus::ToDo, TaskStatus::ToDo));
    assert!(!can_transition(TaskStatus::Done, TaskStatus::ToDo));
    assert!(!can_transition(TaskStatus::InProgress, TaskStatus::Recall));
    assert!(!can_transition(TaskStatus::Recall, TaskStatus::Recall));
    assert!(!can_transition(TaskStatus::InProgress, TaskStatus::NotInitialized));
}

#[test]
fn kind_strings_round_trip() {
    for kind in [Kind::Project, Kind::Study, Kind::Event] {
        assert_eq!(Kind::parse(kind.as_str()), Some(kind));
    }
    assert_eq!(Kind::parse("holiday"), None);
    assert_eq!(Kind::parse(""), None);
    assert_eq!(Kind::Event.as_str(), "event");
}

#[test]
fn status_strings_round_trip() {
    for status in [
        TaskStatus::NotInitialized,
        TaskStatus::ToDo,
        TaskStatus::InProgress,
        TaskStatus::Done,
        TaskStatus::Recall,
    ] {
        assert_eq!(TaskStatus::parse(status.as_str()), Some(status));
    }
    assert_eq!(TaskStatus::parse("paused"), None);
    assert_eq!(TaskStatus::NotInitialized.as_str(), "not_initialized");

    for status in [
        CategoryStatus::Active,
        CategoryStatus::Archived,
        CategoryStatus::Completed,
        CategoryStatus::OnHold,
    ] {
        assert_eq!(CategoryStatus::parse(status.as_str()), Some(status));
    }
    assert_eq!(CategoryStatus::parse("retired"), None);
    assert_eq!(CategoryStatus::OnHold.as_str(), "on_hold");
}
