use chronos::errors::DomainError;
use chronos::folders::{build_path_from_parent, folder_name_exists, prepare_new_folder};
use chronos::repository::Repository;

fn add_prepared_folder(repo: &mut Repository, name: &str, parent_id: Option<i32>) -> i32 {
    let prepared =
        prepare_new_folder(repo, name.to_string(), parent_id).expect("preparation should succeed");
    let stored = repo.add_folder(&prepared).expect("insertion should succeed");
    stored.id.expect("stored folders carry an id")
}

#[test]
fn path_derivation_follows_the_ancestor_chain() {
    let mut repo = Repository::new();
    let root_id = add_prepared_folder(&mut repo, "root", None);
    let docs_id = add_prepared_folder(&mut repo, "docs", Some(root_id));
    let notes_id = add_prepared_folder(&mut repo, "notes", Some(docs_id));

    assert_eq!(build_path_from_parent(&repo, None).unwrap(), "/");
    assert_eq!(build_path_from_parent(&repo, Some(root_id)).unwrap(), "/");
    assert_eq!(build_path_from_parent(&repo, Some(docs_id)).unwrap(), "/docs");
    assert_eq!(
        build_path_from_parent(&repo, Some(notes_id)).unwrap(),
        "/docs/notes"
    );

    let notes = repo.get_folder_by_id(notes_id).expect("stored");
    assert_eq!(notes.path, "/docs/notes");
}

#[test]
fn missing_parent_is_reported() {
    let repo = Repository::new();
    assert_eq!(
        build_path_from_parent(&repo, Some(4)).unwrap_err(),
        DomainError::ParentFolderNotFound(4)
    );
    let prepared = prepare_new_folder(&repo, "docs".to_string(), Some(4));
    assert_eq!(
        prepared.unwrap_err(),
        DomainError::ParentFolderNotFound(4)
    );
}

#[test]
fn rootless_folder_must_be_named_root() {
    let repo = Repository::new();
    let refused = prepare_new_folder(&repo, "home".to_string(), None);
    assert_eq!(refused.unwrap_err(), DomainError::InvalidRootName);

    let accepted = prepare_new_folder(&repo, "ROOT".to_string(), None)
        .expect("case-insensitive root name is accepted");
    assert_eq!(accepted.path, "/");
    assert_eq!(accepted.parent_id, None);
}

#[test]
fn only_one_rootless_folder_can_ever_exist() {
    let mut repo = Repository::new();
    add_prepared_folder(&mut repo, "root", None);

    let again = prepare_new_folder(&repo, "root".to_string(), None);
    assert_eq!(again.unwrap_err(), DomainError::RootAlreadyExists);

    let other_name = prepare_new_folder(&repo, "whatever".to_string(), None);
    assert_eq!(other_name.unwrap_err(), DomainError::RootAlreadyExists);
}

#[test]
fn sibling_names_are_unique_case_insensitively() {
    let mut repo = Repository::new();
    let root_id = add_prepared_folder(&mut repo, "root", None);
    add_prepared_folder(&mut repo, "notes", Some(root_id));

    assert!(folder_name_exists(&repo, Some(root_id), "NOTES"));
    let duplicate = prepare_new_folder(&repo, "Notes".to_string(), Some(root_id));
    assert_eq!(duplicate.unwrap_err(), DomainError::DuplicateSiblingName);

    let elsewhere = prepare_new_folder(&repo, "archive".to_string(), Some(root_id));
    assert!(elsewhere.is_ok());
}

#[test]
fn folder_queries_return_stored_rows() {
    let mut repo = Repository::new();
    let root_id = add_prepared_folder(&mut repo, "root", None);
    let docs_id = add_prepared_folder(&mut repo, "docs", Some(root_id));

    let all = repo.get_all_folders();
    assert_eq!(all.len(), 2);
    assert_eq!(all[1].name, "docs");
    assert_eq!(all[1].parent_id, Some(root_id));

    assert!(repo.get_folder_by_id(docs_id).is_some());
    assert!(repo.get_folder_by_id(999).is_none());
    assert!(repo.folder_exists(root_id));

    let orphan = chronos::models::Folder {
        id: None,
        name: "dangling".to_string(),
        path: "/dangling".to_string(),
        created_at: 0,
        last_accessed: None,
        parent_id: Some(999),
    };
    assert_eq!(
        repo.add_folder(&orphan).unwrap_err(),
        DomainError::ParentFolderNotFound(999)
    );
}
