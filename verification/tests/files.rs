use chronos::errors::DomainError;
use chronos::files::prepare_new_file;
use chronos::repository::Repository;

#[test]
fn file_type_is_guessed_from_the_name() {
    let content = vec![1u8, 2, 3];
    let file = prepare_new_file("picture.png", Some(&content), None, 1, false)
        .expect("content given");
    assert_eq!(file.file_type, "image/png");
    assert_eq!(file.content, vec![1u8, 2, 3]);

    let plain = prepare_new_file("notes.txt", Some(&content), None, 1, false)
        .expect("content given");
    assert_eq!(plain.file_type, "text/plain");

    let unknown = prepare_new_file("mystery.zzyzx", Some(&content), None, 1, false)
        .expect("content given");
    assert_eq!(unknown.file_type, "application/octet-stream");
}

#[test]
fn a_file_needs_content_or_a_link() {
    let refused = prepare_new_file("empty.txt", None, None, 1, false);
    assert_eq!(refused.unwrap_err(), DomainError::MissingFileContent);

    let empty = vec![];
    let refused = prepare_new_file("empty.txt", Some(&empty), None, 1, false);
    assert_eq!(refused.unwrap_err(), DomainError::MissingFileContent);

    let linked = prepare_new_file("page.html", None, Some("https://example.com"), 3, true)
        .expect("a link is substance enough");
    assert!(linked.content.is_empty());
    assert_eq!(linked.link.as_deref(), Some("https://example.com"));
    assert_eq!(linked.folder_id, 3);
    assert!(linked.is_favorite);
}

#[test]
fn file_rows_are_stored_and_queried() {
    let mut repo = Repository::new();
    let content = vec![9u8];
    let first = prepare_new_file("a.txt", Some(&content), None, 1, false).expect("a");
    let second = prepare_new_file("b.txt", Some(&content), None, 2, false).expect("b");
    let stored_a = repo.add_file(&first);
    let stored_b = repo.add_file(&second);

    assert_eq!(repo.get_all_files().len(), 2);
    let by_folder = repo.get_files_by_folder_id(2);
    assert_eq!(by_folder.len(), 1);
    assert_eq!(by_folder[0].id, stored_b.id);

    let fetched = repo
        .get_file_by_id(stored_a.id.expect("assigned"))
        .expect("stored");
    assert_eq!(fetched.name, "a.txt");

    let mut replacement = fetched;
    replacement.name = "renamed.txt".to_string();
    repo.update_file(stored_a.id.unwrap(), replacement);
    assert_eq!(
        repo.get_file_by_id(stored_a.id.unwrap()).unwrap().name,
        "renamed.txt"
    );

    assert_eq!(repo.delete_file(stored_a.id.unwrap()), 1);
    assert_eq!(repo.delete_file(stored_a.id.unwrap()), 0);
}
