use changes::hashing::{combine_digests, file_digest, DecodeError, Digest};
use changes::store::{evaluate_change, get_store_path};

#[test]
fn directory_sidecar_lives_inside_the_directory() {
    assert_eq!(get_store_path(b"some/dir", true), b"some/dir/.changes.hash".to_vec());
    assert_eq!(get_store_path(b"some/dir/", true), b"some/dir/.changes.hash".to_vec());
    assert_eq!(get_store_path(b"", true), b".changes.hash".to_vec());
}

#[test]
fn file_sidecar_is_a_hidden_sibling() {
    assert_eq!(
        get_store_path(b"some/file.txt", false),
        b"some/.file.txt.changes.hash".to_vec()
    );
    assert_eq!(get_store_path(b"file", false), b".file.changes.hash".to_vec());
}

#[test]
fn nameless_path_gets_the_error_marker_sidecar() {
    assert_eq!(get_store_path(b"some/..", false), b"some/.ERR.changes.hash".to_vec());
    assert_eq!(get_store_path(b"some/.", false), b"some/.ERR.changes.hash".to_vec());
    assert_eq!(get_store_path(b"some/", false), b"some/.ERR.changes.hash".to_vec());
    assert_eq!(get_store_path(b"", false), b".ERR.changes.hash".to_vec());
}

#[test]
fn first_check_reports_change_and_stores_the_digest() {
    let current = file_digest(b"a", b"x");
    let check = evaluate_change(&current, None).unwrap();
    assert!(check.changed);
    let stored = check.write_back.expect("a first check must store the digest");
    let decoded = Digest::from_hex(&stored).expect("the stored text must decode");
    assert!(decoded.equals(&current));
}

#[test]
fn second_check_with_no_change_is_quiet() {
    let current = file_digest(b"a", b"x");
    let first = evaluate_change(&current, None).unwrap();
    let stored = first.write_back.unwrap();

    let again = file_digest(b"a", b"x");
    let second = evaluate_change(&again, Some(&stored)).unwrap();
    assert!(!second.changed);
    assert!(second.write_back.is_none());
}

#[test]
fn a_change_after_a_store_is_reported_and_restored() {
    let old = file_digest(b"a", b"x");
    let stored = evaluate_change(&old, None).unwrap().write_back.unwrap();

    let new = file_digest(b"a", b"y");
    let third = evaluate_change(&new, Some(&stored)).unwrap();
    assert!(third.changed);
    let rewritten = third.write_back.expect("a differing digest must be stored");
    let decoded = Digest::from_hex(&rewritten).unwrap();
    assert!(decoded.equals(&new));
}

#[test]
fn corrupted_sidecar_is_a_decode_failure_not_a_change() {
    let current = file_digest(b"a", b"x");
    let garbage = vec![b'z'; 64];
    assert_eq!(
        evaluate_change(&current, Some(&garbage)).unwrap_err(),
        DecodeError::BadDigit
    );
    let short = b"0123".to_vec();
    assert_eq!(
        evaluate_change(&current, Some(&short)).unwrap_err(),
        DecodeError::BadLength
    );
}

#[test]
fn modifying_a_tracked_child_changes_the_directory_digest() {
    let before = combine_digests(&vec![file_digest(b"a", b"x"), file_digest(b"b", b"y")]);
    let modified = combine_digests(&vec![file_digest(b"a", b"x"), file_digest(b"b", b"z")]);
    let added = combine_digests(&vec![
        file_digest(b"a", b"x"),
        file_digest(b"b", b"y"),
        file_digest(b"c", b"w"),
    ]);
    let removed = combine_digests(&vec![file_digest(b"a", b"x")]);
    assert!(!before.equals(&modified));
    assert!(!before.equals(&added));
    assert!(!before.equals(&removed));
}
