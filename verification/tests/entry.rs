use rls::entry::{
    classify, format_dir, format_entry, format_file, is_hidden, DirectoryEntry, EntryKind,
    RawEntry, DIRECTORY_MARK, LINE_END, PACKED_GAP,
};

#[test]
fn names_with_a_leading_dot_are_hidden() {
    assert!(is_hidden(".hidden"));
    assert!(is_hidden("."));
    assert!(is_hidden(".."));
    assert!(is_hidden(".git"));
}

#[test]
fn other_names_are_not_hidden() {
    assert!(!is_hidden("a.txt"));
    assert!(!is_hidden("src"));
    assert!(!is_hidden("a."));
    assert!(!is_hidden(" .a"));
    assert!(!is_hidden(""));
    assert!(!is_hidden("é.txt"));
}

#[test]
fn a_directory_gets_a_slash_in_the_packed_layout() {
    assert_eq!(format_dir(false, "mydir"), "mydir/  ");
}

#[test]
fn a_directory_gets_a_slash_on_its_own_line() {
    assert_eq!(format_dir(true, "mydir"), "mydir/\n");
}

#[test]
fn a_file_is_bare_in_the_packed_layout() {
    assert_eq!(format_file(false, "myfile"), "myfile  ");
}

#[test]
fn a_file_is_bare_on_its_own_line() {
    assert_eq!(format_file(true, "myfile"), "myfile\n");
}

#[test]
fn an_entry_is_formatted_by_its_kind() {
    let dir = DirectoryEntry { name: String::from("b"), kind: EntryKind::Directory };
    let file = DirectoryEntry { name: String::from("a.txt"), kind: EntryKind::File };
    assert_eq!(format_entry(false, &dir), "b/  ");
    assert_eq!(format_entry(true, &dir), "b/\n");
    assert_eq!(format_entry(false, &file), "a.txt  ");
    assert_eq!(format_entry(true, &file), "a.txt\n");
}

#[test]
fn a_hidden_directory_still_gets_its_slash() {
    let dir = DirectoryEntry { name: String::from(".git"), kind: EntryKind::Directory };
    assert_eq!(format_entry(false, &dir), ".git/  ");
}

#[test]
fn an_empty_name_is_formatted_like_any_other() {
    assert_eq!(format_dir(false, ""), "/  ");
    assert_eq!(format_file(true, ""), "\n");
}

#[test]
fn a_lookup_that_reports_a_directory_classifies_as_directory() {
    match classify(String::from("src"), Some(true)) {
        RawEntry::Classified(entry) => {
            assert_eq!(entry.name, "src");
            assert_eq!(entry.kind, EntryKind::Directory);
        }
        other => panic!("not classified: {:?}", other),
    }
}

#[test]
fn a_lookup_that_reports_anything_else_classifies_as_file() {
    match classify(String::from("a.txt"), Some(false)) {
        RawEntry::Classified(entry) => {
            assert_eq!(entry.name, "a.txt");
            assert_eq!(entry.kind, EntryKind::File);
        }
        other => panic!("not classified: {:?}", other),
    }
}

#[test]
fn a_failed_lookup_leaves_the_entry_unclassified() {
    match classify(String::from("gone"), None) {
        RawEntry::Unclassified { name } => assert_eq!(name, "gone"),
        other => panic!("classified after all: {:?}", other),
    }
}

#[test]
fn the_fixed_texts() {
    assert_eq!(DIRECTORY_MARK, "/");
    assert_eq!(PACKED_GAP, "  ");
    assert_eq!(LINE_END, "\n");
}
