use file_tree::render::{decimal_string, display_file, indent_string, root_line};
use file_tree::{Entry, EntryKind, Metadata};

fn file(path: &str, name: &str, depth: usize, len: u64) -> Entry {
    Entry {
        path: path.to_string(),
        name: Some(name.to_string()),
        depth,
        metadata: Some(Metadata { kind: EntryKind::File, len }),
    }
}

fn directory(path: &str, name: &str, depth: usize) -> Entry {
    Entry {
        path: path.to_string(),
        name: Some(name.to_string()),
        depth,
        metadata: Some(Metadata { kind: EntryKind::Directory, len: 4096 }),
    }
}

#[test]
fn root_line_is_a_dot() {
    assert_eq!(root_line(), ".");
}

#[test]
fn indent_at_depth_one_is_one_marker() {
    assert_eq!(indent_string(1), "|--");
}

#[test]
fn indent_at_depth_two_nests_once() {
    assert_eq!(indent_string(2), "|--   |--");
}

#[test]
fn indent_at_depth_three_nests_twice() {
    assert_eq!(indent_string(3), "|--   |--   |--");
}

#[test]
fn indent_grows_by_six_characters_a_level() {
    for depth in 1..40usize {
        let text = indent_string(depth);
        assert_eq!(text.len(), 3 + 6 * (depth - 1));
        assert_eq!(text, format!("|--{}", "   |--".repeat(depth - 1)));
    }
}

#[test]
fn entry_at_depth_one_is_prefixed_by_one_marker() {
    let entry = file("./notes.txt", "notes.txt", 1, 10);
    assert_eq!(display_file(&entry, false, false), "|--notes.txt");
}

#[test]
fn entry_at_depth_three_is_prefixed_by_three_markers() {
    let entry = file("./a/b/notes.txt", "notes.txt", 3, 10);
    assert_eq!(display_file(&entry, false, false), "|--   |--   |--notes.txt");
}

#[test]
fn decimal_of_small_and_large_numbers() {
    assert_eq!(decimal_string(0), "0");
    assert_eq!(decimal_string(7), "7");
    assert_eq!(decimal_string(9), "9");
    assert_eq!(decimal_string(10), "10");
    assert_eq!(decimal_string(99), "99");
    assert_eq!(decimal_string(100), "100");
    assert_eq!(decimal_string(1024), "1024");
    assert_eq!(decimal_string(9_876_543_210), "9876543210");
    assert_eq!(decimal_string(u64::MAX), "18446744073709551615");
}

#[test]
fn decimal_agrees_with_the_standard_library() {
    let mut n: u64 = 1;
    for _ in 0..60 {
        assert_eq!(decimal_string(n), n.to_string());
        assert_eq!(decimal_string(n - 1), (n - 1).to_string());
        n = n.wrapping_mul(3).wrapping_add(1);
    }
}

#[test]
fn size_of_2048_bytes_is_two_kilobytes() {
    let entry = file("./big", "big", 1, 2048);
    assert_eq!(display_file(&entry, false, true), "|--big [2KB]");
}

#[test]
fn size_of_2047_bytes_is_one_kilobyte() {
    let entry = file("./big", "big", 1, 2047);
    assert_eq!(display_file(&entry, false, true), "|--big [1KB]");
}

#[test]
fn size_of_an_empty_file_is_zero_kilobytes() {
    let entry = file("./empty", "empty", 1, 0);
    assert_eq!(display_file(&entry, false, true), "|--empty [0KB]");
}

#[test]
fn size_of_500_bytes_is_zero_kilobytes() {
    let entry = file("./small", "small", 1, 500);
    assert_eq!(display_file(&entry, false, true), "|--small [0KB]");
}

#[test]
fn size_of_1023_and_1024_bytes() {
    assert_eq!(display_file(&file("./f", "f", 1, 1023), false, true), "|--f [0KB]");
    assert_eq!(display_file(&file("./f", "f", 1, 1024), false, true), "|--f [1KB]");
}

#[test]
fn size_of_the_largest_file() {
    let entry = file("./huge", "huge", 2, u64::MAX);
    assert_eq!(display_file(&entry, false, true), "|--   |--huge [18014398509481983KB]");
}

#[test]
fn size_is_left_out_unless_asked_for() {
    let entry = file("./big", "big", 1, 2048);
    assert_eq!(display_file(&entry, false, false), "|--big");
}

#[test]
fn size_is_not_shown_for_a_directory() {
    let entry = directory("./src", "src", 1);
    assert_eq!(display_file(&entry, false, true), "|--src");
}

#[test]
fn size_is_not_shown_for_another_kind() {
    let entry = Entry {
        path: "./pipe".to_string(),
        name: Some("pipe".to_string()),
        depth: 1,
        metadata: Some(Metadata { kind: EntryKind::Other, len: 4096 }),
    };
    assert_eq!(display_file(&entry, false, true), "|--pipe");
}

#[test]
fn size_is_not_shown_without_metadata() {
    let entry = Entry {
        path: "./gone".to_string(),
        name: Some("gone".to_string()),
        depth: 1,
        metadata: None,
    };
    assert_eq!(display_file(&entry, false, true), "|--gone");
    assert_eq!(entry.size(), 0);
    assert_eq!(entry.kind(), EntryKind::Other);
}

#[test]
fn full_path_is_shown_in_place_of_the_name() {
    let entry = file("./a/b/notes.txt", "notes.txt", 3, 10);
    assert_eq!(display_file(&entry, true, false), "|--   |--   |--./a/b/notes.txt");
}

#[test]
fn full_path_overrides_size() {
    let entry = file("./a/big", "big", 2, 2048);
    let line = display_file(&entry, true, true);
    assert_eq!(line, "|--   |--./a/big");
    assert_eq!(line, display_file(&entry, true, false));
    assert!(!line.contains("KB]"));
}

#[test]
fn full_path_is_shown_even_when_the_name_is_not_text() {
    let entry = Entry {
        path: "./odd\u{fffd}".to_string(),
        name: None,
        depth: 1,
        metadata: Some(Metadata { kind: EntryKind::File, len: 1 }),
    };
    assert_eq!(display_file(&entry, true, true), "|--./odd\u{fffd}");
}

#[test]
fn name_that_is_not_text_gets_the_placeholder() {
    let entry = Entry {
        path: "./odd".to_string(),
        name: None,
        depth: 2,
        metadata: Some(Metadata { kind: EntryKind::Directory, len: 0 }),
    };
    assert_eq!(display_file(&entry, false, false), "|--   |--未知文件");
}

#[test]
fn placeholder_is_followed_by_the_size_of_a_file() {
    let entry = Entry {
        path: "./odd".to_string(),
        name: None,
        depth: 1,
        metadata: Some(Metadata { kind: EntryKind::File, len: 4096 }),
    };
    assert_eq!(display_file(&entry, false, true), "|--未知文件 [4KB]");
}

#[test]
fn kind_and_size_come_from_the_metadata() {
    let entry = file("./f", "f", 1, 77);
    assert_eq!(entry.kind(), EntryKind::File);
    assert_eq!(entry.size(), 77);
    let entry = directory("./d", "d", 1);
    assert_eq!(entry.kind(), EntryKind::Directory);
    assert_eq!(entry.size(), 4096);
}
