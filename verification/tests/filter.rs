use file_tree::filter::{is_file, is_not_hidden};
use file_tree::{Entry, EntryKind, Metadata};

fn named(name: Option<&str>, depth: usize, metadata: Option<Metadata>) -> Entry {
    Entry {
        path: format!("./{}", name.unwrap_or("?")),
        name: name.map(|text| text.to_string()),
        depth,
        metadata,
    }
}

fn of_kind(kind: EntryKind) -> Entry {
    named(Some("x"), 1, Some(Metadata { kind, len: 1 }))
}

#[test]
fn dotted_name_is_hidden() {
    assert!(!is_not_hidden(&named(Some(".git"), 1, None), false));
    assert!(!is_not_hidden(&named(Some("."), 2, None), false));
    assert!(!is_not_hidden(&named(Some(".."), 3, None), false));
}

#[test]
fn plain_name_is_visible() {
    assert!(is_not_hidden(&named(Some("src"), 1, None), false));
    assert!(is_not_hidden(&named(Some("a.txt"), 4, None), false));
    assert!(is_not_hidden(&named(Some("a."), 1, None), false));
}

#[test]
fn dot_that_is_not_first_does_not_hide() {
    assert!(is_not_hidden(&named(Some("x.y"), 1, None), false));
    assert!(is_not_hidden(&named(Some(" .x"), 1, None), false));
    assert!(is_not_hidden(&named(Some("文件.txt"), 1, None), false));
}

#[test]
fn empty_name_is_visible() {
    assert!(is_not_hidden(&named(Some(""), 1, None), false));
}

#[test]
fn everything_is_visible_when_hidden_entries_are_shown() {
    assert!(is_not_hidden(&named(Some(".git"), 1, None), true));
    assert!(is_not_hidden(&named(None, 1, None), true));
    assert!(is_not_hidden(&named(Some("src"), 1, None), true));
}

#[test]
fn root_is_visible_whatever_its_name() {
    assert!(is_not_hidden(&named(Some("."), 0, None), false));
    assert!(is_not_hidden(&named(Some(".config"), 0, None), false));
    assert!(is_not_hidden(&named(None, 0, None), false));
}

#[test]
fn name_that_is_not_text_is_hidden_below_the_root() {
    assert!(!is_not_hidden(&named(None, 1, None), false));
    assert!(!is_not_hidden(&named(None, 5, None), false));
}

#[test]
fn no_toggle_accepts_every_kind() {
    assert!(is_file(&of_kind(EntryKind::File), false, false));
    assert!(is_file(&of_kind(EntryKind::Directory), false, false));
    assert!(is_file(&of_kind(EntryKind::Other), false, false));
    assert!(is_file(&named(Some("x"), 1, None), false, false));
}

#[test]
fn directory_toggle_accepts_directories_alone() {
    assert!(is_file(&of_kind(EntryKind::Directory), true, false));
    assert!(!is_file(&of_kind(EntryKind::File), true, false));
    assert!(!is_file(&of_kind(EntryKind::Other), true, false));
}

#[test]
fn file_toggle_accepts_files_alone() {
    assert!(is_file(&of_kind(EntryKind::File), false, true));
    assert!(!is_file(&of_kind(EntryKind::Directory), false, true));
    assert!(!is_file(&of_kind(EntryKind::Other), false, true));
}

#[test]
fn both_toggles_accept_files_and_directories() {
    assert!(is_file(&of_kind(EntryKind::File), true, true));
    assert!(is_file(&of_kind(EntryKind::Directory), true, true));
    assert!(!is_file(&of_kind(EntryKind::Other), true, true));
}

#[test]
fn entry_without_metadata_fails_every_kind_toggle() {
    let entry = named(Some("x"), 1, None);
    assert!(!is_file(&entry, true, false));
    assert!(!is_file(&entry, false, true));
    assert!(!is_file(&entry, true, true));
}

#[test]
fn kind_from_the_answers_of_a_lookup() {
    assert_eq!(EntryKind::from_flags(true, false), EntryKind::File);
    assert_eq!(EntryKind::from_flags(false, true), EntryKind::Directory);
    assert_eq!(EntryKind::from_flags(false, false), EntryKind::Other);
    assert_eq!(EntryKind::from_flags(true, true), EntryKind::File);
}
