use chronos::errors::DomainError;
use chronos::categories::{category_name_exists, prepare_new_category};
use chronos::models::{CategoryStatus, Kind, NewCategory};
use chronos::repository::Repository;

fn setup_test_repo() -> Repository {
    Repository::new()
}

#[test]
fn test_create_and_get_category() {
    let mut repo = setup_test_repo();

    let new_category = NewCategory {
        name: "Test Category".to_string(),
        description: None,
        kind: Kind::Study,
        status: CategoryStatus::Active,
        created_at: chrono::Local::now().timestamp(),
        updated_at: None,
    };

    let created_category = repo.create_category(new_category);

    let fetched_category = repo
        .get_category_by_id(created_category.id)
        .expect("Category fetch failed");

    assert_eq!(created_category.name, fetched_category.name);
    assert_eq!(created_category.status, fetched_category.status);
}

#[test]
fn test_update_category() {
    let mut repo = setup_test_repo();

    let new_category = NewCategory {
        name: "Category to Update".to_string(),
        description: None,
        kind: Kind::Study,
        status: CategoryStatus::Active,
        created_at: chrono::Local::now().timestamp(),
        updated_at: None,
    };

    let created_category = repo.create_category(new_category);

    let updated_at = chrono::Local::now().timestamp();
    let updated_category = NewCategory {
        name: "Updated Category".to_string(),
        description: Some("Updated description".to_string()),
        kind: Kind::Project,
        status: CategoryStatus::Completed,
        created_at: created_category.created_at,
        updated_at: Some(updated_at),
    };

    let updated_category_db = repo
        .update_category(created_category.id, updated_category)
        .expect("Category update failed");

    assert_eq!(updated_category_db.name, "Updated Category");
    assert_eq!(updated_category_db.status, CategoryStatus::Completed);
}

#[test]
fn test_delete_category() {
    let mut repo = setup_test_repo();

    let new_category = NewCategory {
        name: "Category to Delete".to_string(),
        description: None,
        kind: Kind::Study,
        status: CategoryStatus::Active,
        created_at: chrono::Local::now().timestamp(),
        updated_at: None,
    };

    let created_category = repo.create_category(new_category);

    let deleted_rows = repo.delete_category(created_category.id);

    assert_eq!(deleted_rows, 1);

    let result = repo.get_category_by_id(created_category.id);
    assert!(result.is_err(), "Category should not exist after deletion");
}

#[test]
fn prepare_category_assigns_kind_and_stamps() {
    let repo = setup_test_repo();
    let prepared = prepare_new_category(&repo, "Reading", "study", CategoryStatus::Active)
        .expect("preparation should succeed");
    assert_eq!(prepared.name, "Reading");
    assert_eq!(prepared.kind, Kind::Study);
    assert_eq!(prepared.status, CategoryStatus::Active);
    assert!(prepared.description.is_none());
    assert!(prepared.updated_at.is_none());
}

#[test]
fn prepare_category_rejects_unknown_kind() {
    let repo = setup_test_repo();
    let prepared = prepare_new_category(&repo, "Chores", "chore", CategoryStatus::Active);
    assert_eq!(prepared.unwrap_err(), DomainError::InvalidCategoryKind);
}

#[test]
fn category_names_unique_case_insensitively() {
    let mut repo = setup_test_repo();
    let first = prepare_new_category(&repo, "Study", "study", CategoryStatus::Active)
        .expect("first name is free");
    repo.create_category(first);

    assert!(category_name_exists(&repo, "sTuDy"));
    let second = prepare_new_category(&repo, "sTuDy", "project", CategoryStatus::Active);
    assert_eq!(second.unwrap_err(), DomainError::DuplicateCategoryName);

    let other = prepare_new_category(&repo, "Sport", "project", CategoryStatus::Active);
    assert!(other.is_ok());
}

#[test]
fn deleting_missing_category_removes_no_rows() {
    let mut repo = setup_test_repo();
    assert_eq!(repo.delete_category(42), 0);
}
