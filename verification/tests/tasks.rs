use chronos::errors::DomainError;
use chronos::categories::prepare_new_category;
use chronos::models::{CategoryStatus, Kind, TaskStatus, UpdateTaskData};
use chronos::repository::Repository;
use chronos::tasks::{
    delete_task, generate_recalls, prepare_event_task, prepare_main_project_task,
    prepare_new_task, prepare_project_subtask, prepare_study_task, resolve_task_type,
    validate_parent_task,
};

fn repo_with_category(name: &str, kind: &str) -> (Repository, i32) {
    let mut repo = Repository::new();
    let prepared =
        prepare_new_category(&repo, name, kind, CategoryStatus::Active).expect("category");
    let created = repo.create_category(prepared);
    (repo, created.id)
}

#[test]
fn kind_follows_referenced_category() {
    let (repo, project_id) = repo_with_category("Work", "project");
    let task = prepare_new_task(&repo, "Plan", None, Some(project_id), None, None)
        .expect("creation should succeed");
    assert_eq!(task.kind, Kind::Project);

    let (repo, study_id) = repo_with_category("Read", "study");
    let task = prepare_new_task(&repo, "Chapter", None, Some(study_id), None, None)
        .expect("creation should succeed");
    assert_eq!(task.kind, Kind::Study);

    let repo = Repository::new();
    let task = prepare_new_task(&repo, "Alone", None, None, None, Some("2025-01-01"))
        .expect("creation should succeed");
    assert_eq!(task.kind, Kind::Event);
}

#[test]
fn unknown_category_reference_fails() {
    let repo = Repository::new();
    let r = prepare_new_task(&repo, "Plan", None, Some(7), None, None);
    assert_eq!(r.unwrap_err(), DomainError::CategoryNotFound(7));
    assert_eq!(
        resolve_task_type(&repo, Some(7)).unwrap_err(),
        DomainError::CategoryNotFound(7)
    );
    assert_eq!(resolve_task_type(&repo, None).unwrap(), Kind::Event);
}

#[test]
fn event_without_due_date_always_fails() {
    let repo = Repository::new();
    let r = prepare_new_task(&repo, "Party", None, None, None, None);
    assert_eq!(r.unwrap_err(), DomainError::MissingDueDate);

    let r = prepare_new_task(&repo, "Other", Some("details"), None, None, None);
    assert_eq!(r.unwrap_err(), DomainError::MissingDueDate);

    let r = prepare_event_task("Party", None, None, 50);
    assert_eq!(r.unwrap_err(), DomainError::MissingDueDate);
}

#[test]
fn subtask_with_missing_parent_always_fails() {
    let (repo, project_id) = repo_with_category("Work", "project");
    let r = prepare_new_task(&repo, "Sub", None, Some(project_id), Some(12), None);
    assert_eq!(r.unwrap_err(), DomainError::ParentTaskNotFound(12));

    let r = prepare_new_task(
        &repo,
        "Other title",
        Some("other description"),
        Some(project_id),
        Some(12),
        Some("2030-05-05"),
    );
    assert_eq!(r.unwrap_err(), DomainError::ParentTaskNotFound(12));

    assert!(validate_parent_task(&repo, None).is_ok());
    assert_eq!(
        validate_parent_task(&repo, Some(12)).unwrap_err(),
        DomainError::ParentTaskNotFound(12)
    );
}

#[test]
fn recall_schedule_is_three_strictly_increasing_checkpoints() {
    let recalls = generate_recalls(1000);
    assert_eq!(recalls, vec![1000, 1000 + 2 * 86400, 1000 + 5 * 86400]);
    assert!(recalls[0] < recalls[1] && recalls[1] < recalls[2]);

    let (repo, study_id) = repo_with_category("Read", "study");
    let task = prepare_new_task(&repo, "Chapter", None, Some(study_id), None, None)
        .expect("creation should succeed");
    let recalls = task.recalls.clone().expect("study task carries a schedule");
    assert_eq!(recalls.len(), 3);
    assert!(recalls[0] < recalls[1] && recalls[1] < recalls[2]);
    assert!(recalls[0] <= task.created_at);
    assert_eq!(recalls[2], task.created_at + 5 * 86400);
}

#[test]
fn study_task_scenario() {
    let (mut repo, study_id) = repo_with_category("Study", "study");
    let prepared = prepare_new_task(&repo, "Learn X", None, Some(study_id), None, None)
        .expect("creation should succeed");
    assert_eq!(prepared.kind, Kind::Study);
    assert_eq!(prepared.status, TaskStatus::ToDo);
    assert!(prepared.last_recall.is_some());
    assert_eq!(prepared.last_recall, Some(prepared.created_at));
    assert_eq!(prepared.recalls.as_ref().map(|r| r.len()), Some(3));

    let stored = repo.create(&prepared);
    assert_eq!(stored.kind, Kind::Study);
    assert_eq!(stored.status, TaskStatus::ToDo);
    assert_eq!(stored.recalls.as_ref().map(|r| r.len()), Some(3));
}

#[test]
fn event_task_scenario() {
    let repo = Repository::new();
    let rejected = prepare_new_task(&repo, "Meet", None, None, None, None);
    assert_eq!(rejected.unwrap_err(), DomainError::MissingDueDate);

    let accepted = prepare_new_task(&repo, "Meet", None, None, None, Some("2025-01-01"))
        .expect("creation should succeed");
    assert_eq!(accepted.kind, Kind::Event);
    assert_eq!(accepted.status, TaskStatus::ToDo);
    assert_eq!(accepted.due_date.as_deref(), Some("2025-01-01"));
}

#[test]
fn project_task_statuses_depend_on_parent() {
    let (mut repo, project_id) = repo_with_category("Work", "project");
    let root = prepare_new_task(&repo, "Root", None, Some(project_id), None, None)
        .expect("creation should succeed");
    assert_eq!(root.status, TaskStatus::NotInitialized);
    assert!(root.parent_id.is_none());
    let stored_root = repo.create(&root);

    let sub = prepare_new_task(
        &repo,
        "Sub",
        None,
        Some(project_id),
        Some(stored_root.id),
        None,
    )
    .expect("creation should succeed");
    assert_eq!(sub.status, TaskStatus::ToDo);
    assert_eq!(sub.parent_id, Some(stored_root.id));
}

#[test]
fn builders_fill_every_field() {
    let main = prepare_main_project_task("T", Some("d"), Some(2), Some("2025-02-02"), 77)
        .expect("builder succeeds");
    assert_eq!(main.status, TaskStatus::NotInitialized);
    assert_eq!(main.kind, Kind::Project);
    assert_eq!(main.parent_id, None);
    assert_eq!(main.category_id, Some(2));
    assert_eq!(main.created_at, 77);
    assert_eq!(main.updated_at, Some(77));
    assert!(main.recalls.is_none() && main.last_recall.is_none());

    let sub = prepare_project_subtask("T", None, Some(2), Some(5), None, 78)
        .expect("builder succeeds");
    assert_eq!(sub.status, TaskStatus::ToDo);
    assert_eq!(sub.parent_id, Some(5));

    let study = prepare_study_task("T", None, Some(2), None, 100).expect("builder succeeds");
    assert_eq!(study.last_recall, Some(100));
    assert_eq!(study.recalls, Some(vec![100, 100 + 172800, 100 + 432000]));

    let event = prepare_event_task("T", None, Some("2025-03-03"), 79).expect("builder succeeds");
    assert_eq!(event.category_id, None);
    assert_eq!(event.parent_id, None);
}

#[test]
fn status_updates_follow_the_whitelist() {
    let (mut repo, project_id) = repo_with_category("Work", "project");
    let root = prepare_new_task(&repo, "Root", None, Some(project_id), None, None)
        .expect("creation should succeed");
    let stored = repo.create(&root);
    assert_eq!(stored.status, TaskStatus::NotInitialized);

    assert!(repo.update_status(stored.id, TaskStatus::ToDo).is_ok());
    assert_eq!(
        repo.get_by_id(stored.id).unwrap().status,
        TaskStatus::ToDo
    );

    let refused = repo.update_status(stored.id, TaskStatus::Done);
    assert_eq!(refused.unwrap_err(), DomainError::InvalidStatusTransition);

    assert!(repo.update_status(stored.id, TaskStatus::InProgress).is_ok());
    assert!(repo.update_status(stored.id, TaskStatus::Done).is_ok());
    assert!(repo.update_status(stored.id, TaskStatus::InProgress).is_ok());

    let missing = repo.update_status(999, TaskStatus::ToDo);
    assert_eq!(missing.unwrap_err(), DomainError::TaskNotFound(999));
}

#[test]
fn set_done_flips_between_done_and_in_progress() {
    let (mut repo, study_id) = repo_with_category("Read", "study");
    let task = prepare_new_task(&repo, "Chapter", None, Some(study_id), None, None)
        .expect("creation should succeed");
    let stored = repo.create(&task);

    repo.set_done(stored.id, true);
    assert_eq!(repo.get_by_id(stored.id).unwrap().status, TaskStatus::Done);
    repo.set_done(stored.id, false);
    assert_eq!(
        repo.get_by_id(stored.id).unwrap().status,
        TaskStatus::InProgress
    );
    repo.set_done(999, true);
}

#[test]
fn recall_update_replaces_the_schedule_wholesale() {
    let (mut repo, study_id) = repo_with_category("Read", "study");
    let task = prepare_new_task(&repo, "Chapter", None, Some(study_id), None, None)
        .expect("creation should succeed");
    let stored = repo.create(&task);

    repo.update_recall_info(stored.id, Some(5000), Some(vec![5000, 6000]));
    let after = repo.get_by_id(stored.id).unwrap();
    assert_eq!(after.last_recall, Some(5000));
    assert_eq!(after.recalls, Some(vec![5000, 6000]));

    repo.update_recall_info(stored.id, None, None);
    let cleared = repo.get_by_id(stored.id).unwrap();
    assert_eq!(cleared.last_recall, None);
    assert_eq!(cleared.recalls, None);
}

#[test]
fn update_task_merges_only_given_fields() {
    let (mut repo, project_id) = repo_with_category("Work", "project");
    let task = prepare_new_task(
        &repo,
        "Old title",
        Some("old description"),
        Some(project_id),
        None,
        Some("2025-01-01"),
    )
    .expect("creation should succeed");
    let stored = repo.create(&task);

    let updated = repo
        .update_task(
            stored.id,
            UpdateTaskData {
                title: Some("New title".to_string()),
                description: None,
                due_date: None,
            },
        )
        .expect("update should succeed");
    assert_eq!(updated.title, "New title");
    assert_eq!(updated.description.as_deref(), Some("old description"));
    assert_eq!(updated.due_date.as_deref(), Some("2025-01-01"));

    let missing = repo.update_task(
        999,
        UpdateTaskData { title: None, description: None, due_date: None },
    );
    assert_eq!(missing.unwrap_err(), DomainError::TaskNotFound(999));
}

#[test]
fn delete_task_reports_missing_rows() {
    let (mut repo, project_id) = repo_with_category("Work", "project");
    let task = prepare_new_task(&repo, "Root", None, Some(project_id), None, None)
        .expect("creation should succeed");
    let stored = repo.create(&task);

    assert_eq!(delete_task(&mut repo, stored.id).unwrap(), stored.id);
    assert_eq!(
        delete_task(&mut repo, stored.id).unwrap_err(),
        DomainError::TaskNotFound(stored.id)
    );
}

#[test]
fn task_queries_filter_by_category_and_status() {
    let (mut repo, project_id) = repo_with_category("Work", "project");
    let a = repo.create(
        &prepare_new_task(&repo, "A", None, Some(project_id), None, None).expect("a"),
    );
    let b = repo.create(
        &prepare_new_task(&repo, "B", None, None, None, Some("2025-01-01")).expect("b"),
    );
    repo.set_done(b.id, true);

    let by_category = repo.get_tasks_by_category_id(project_id);
    assert_eq!(by_category.len(), 1);
    assert_eq!(by_category[0].id, a.id);

    let pending = repo.get_pending_tasks();
    assert_eq!(pending.len(), 1);
    assert_eq!(pending[0].id, a.id);

    assert_eq!(repo.list().len(), 2);
    assert!(repo.task_exists(a.id));
    assert!(!repo.task_exists(999));
}
