use dir_reveal::collect::RawDirectoryEntry;
use dir_reveal::collect::RawMetadata;
use dir_reveal::collect::collect_entries;
use dir_reveal::errors::Error;
use dir_reveal::kind::FileTypeFlags;
use dir_reveal::report::render_report;
use dir_reveal::users::UserTable;

fn file_flags() -> FileTypeFlags {
    FileTypeFlags {
        is_file: true,
        is_dir: false,
        is_socket: false,
        is_char_device: false,
        is_block_device: false,
        is_fifo: false,
    }
}

fn dir_flags() -> FileTypeFlags {
    FileTypeFlags {
        is_file: false,
        is_dir: true,
        is_socket: false,
        is_char_device: false,
        is_block_device: false,
        is_fifo: false,
    }
}

fn raw(
    name: Option<&str>,
    metadata: Option<RawMetadata>,
    symlink_path: Option<&str>,
) -> RawDirectoryEntry {
    RawDirectoryEntry {
        name: name.map(String::from),
        metadata,
        symlink_path: symlink_path.map(String::from),
    }
}

fn metadata(file_type: FileTypeFlags, size: u64, uid: u32, mode: u32) -> RawMetadata {
    RawMetadata {
        file_type,
        size_in_bytes: size,
        owner_uid: uid,
        permissions_mode: mode,
    }
}

fn alice_table() -> UserTable {
    let mut users = UserTable::new();
    users.add(1000, String::from("alice"));
    users
}

#[test]
fn three_member_directory() {
    let raws = vec![
        raw(Some("c"), Some(metadata(file_flags(), 10, 1000, 0o120777)), Some("a.txt")),
        raw(Some("a.txt"), Some(metadata(file_flags(), 10, 1000, 0o100644)), None),
        raw(Some("b"), Some(metadata(dir_flags(), 4096, 7777, 0o040755)), None),
    ];
    let entries = collect_entries(&raws, &alice_table());
    assert_eq!(entries.len(), 3);
    let lines = render_report("sample", &entries);
    assert_eq!(lines.len(), 5);
    assert_eq!(lines[0], "Revealing directory: sample.");
    assert_eq!(
        lines[1],
        " Index | Type            Size   Permissions       Owner        Name"
    );
    let expected_first = format!(
        "{:>6} | {}{:<9}   {:>7}   {} ({:o})   {:<10}   {}{}",
        "0", " ", "File", "10B", "rw-r--r--", 0o644, "alice", "a.txt", ""
    );
    assert_eq!(lines[2], expected_first);
    let expected_second = format!(
        "{:>6} | {}{:<9}   {:>7}   {} ({:o})   {:<10}   {}{}",
        "1", " ", "Directory", "4.0K", "rwxr-xr-x", 0o755, "", "b", ""
    );
    assert_eq!(lines[3], expected_second);
    let expected_third = format!(
        "{:>6} | {}{:<9}   {:>7}   {} ({:o})   {:<10}   {}{}",
        "2", "@", "File", "10B", "rwxrwxrwx", 0o777, "alice", "c", " -> a.txt"
    );
    assert_eq!(lines[4], expected_third);
}

#[test]
fn empty_directory_reports_header_and_columns_only() {
    let raws: Vec<RawDirectoryEntry> = Vec::new();
    let entries = collect_entries(&raws, &UserTable::new());
    assert_eq!(entries.len(), 0);
    let lines = render_report("empty", &entries);
    assert_eq!(lines.len(), 2);
    assert_eq!(lines[0], "Revealing directory: empty.");
    assert_eq!(
        lines[1],
        " Index | Type            Size   Permissions       Owner        Name"
    );
}

#[test]
fn open_failure_is_fatal_and_non_zero() {
    let error = Error::directory_open_failure();
    assert_eq!(error.message, "could not read directory.");
    assert_eq!(error.hint, "ensure that you have enough permissions to read it.");
    assert_ne!(error.exit_code, 0);
}

#[test]
fn unreadable_members_are_dropped() {
    let raws = vec![
        raw(Some("kept"), Some(metadata(file_flags(), 1, 0, 0o644)), None),
        raw(None, Some(metadata(file_flags(), 2, 0, 0o644)), None),
        raw(Some("no_metadata"), None, None),
        raw(Some("also_kept"), Some(metadata(file_flags(), 3, 0, 0o644)), None),
    ];
    let entries = collect_entries(&raws, &UserTable::new());
    assert_eq!(entries.len(), 2);
    assert_eq!(entries[0].name, "also_kept");
    assert_eq!(entries[1].name, "kept");
}

#[test]
fn entries_are_sorted_by_name_bytes() {
    let raws = vec![
        raw(Some("b"), Some(metadata(file_flags(), 1, 0, 0o644)), None),
        raw(Some("A"), Some(metadata(file_flags(), 1, 0, 0o644)), None),
        raw(Some("a"), Some(metadata(file_flags(), 1, 0, 0o644)), None),
        raw(Some("aa"), Some(metadata(file_flags(), 1, 0, 0o644)), None),
        raw(Some("B"), Some(metadata(file_flags(), 1, 0, 0o644)), None),
        raw(Some(""), Some(metadata(file_flags(), 1, 0, 0o644)), None),
    ];
    let entries = collect_entries(&raws, &UserTable::new());
    let names: Vec<&str> = entries.iter().map(|e| e.name.as_str()).collect();
    assert_eq!(names, vec!["", "A", "B", "a", "aa", "b"]);
}

#[test]
fn sorting_is_stable_under_relisting() {
    let raws = vec![
        raw(Some("z"), Some(metadata(file_flags(), 1, 0, 0o644)), None),
        raw(Some("m"), Some(metadata(file_flags(), 2, 0, 0o644)), None),
        raw(Some("a"), Some(metadata(file_flags(), 3, 0, 0o644)), None),
    ];
    let first = collect_entries(&raws, &UserTable::new());
    let second = collect_entries(&raws, &UserTable::new());
    assert_eq!(first.len(), second.len());
    for (left, right) in first.iter().zip(second.iter()) {
        assert_eq!(left.name, right.name);
        assert_eq!(left.as_string(), right.as_string());
    }
    let sorted_again = collect_entries(
        &first
            .iter()
            .map(|e| raw(
                Some(e.name.as_str()),
                Some(metadata(file_flags(), e.size.bytes, 0, e.permissions.mode)),
                None,
            ))
            .collect(),
        &UserTable::new(),
    );
    let names: Vec<&str> = sorted_again.iter().map(|e| e.name.as_str()).collect();
    assert_eq!(names, vec!["a", "m", "z"]);
}

#[test]
fn equal_names_keep_stream_order() {
    let raws = vec![
        raw(Some("dup"), Some(metadata(file_flags(), 1, 0, 0o644)), None),
        raw(Some("dup"), Some(metadata(file_flags(), 2, 0, 0o644)), None),
        raw(Some("app"), Some(metadata(file_flags(), 3, 0, 0o644)), None),
    ];
    let entries = collect_entries(&raws, &UserTable::new());
    assert_eq!(entries.len(), 3);
    assert_eq!(entries[0].name, "app");
    assert_eq!(entries[1].size.bytes, 1);
    assert_eq!(entries[2].size.bytes, 2);
}

#[test]
fn wide_fields_are_not_truncated() {
    let mut users = UserTable::new();
    users.add(9, String::from("extraordinarily_long_owner"));
    let raws = vec![raw(
        Some("a_name_well_past_every_column_width"),
        Some(metadata(file_flags(), 1, 9, 0o644)),
        None,
    )];
    let entries = collect_entries(&raws, &users);
    let line = entries[0].as_string();
    assert!(line.contains("extraordinarily_long_owner"));
    assert!(line.contains("a_name_well_past_every_column_width"));
}

#[test]
fn only_symlinks_carry_targets_and_markers() {
    let raws = vec![
        raw(Some("link"), Some(metadata(file_flags(), 1, 0, 0o777)), Some("elsewhere")),
        raw(Some("plain"), Some(metadata(file_flags(), 1, 0, 0o644)), None),
    ];
    let entries = collect_entries(&raws, &UserTable::new());
    assert_eq!(entries[0].symlink_path.as_deref(), Some("elsewhere"));
    assert_eq!(entries[1].symlink_path, None);
    let link_line = entries[0].as_string();
    let plain_line = entries[1].as_string();
    assert!(link_line.starts_with('@'));
    assert!(link_line.ends_with(" -> elsewhere"));
    assert!(plain_line.starts_with(' '));
    assert!(!plain_line.contains(" -> "));
}

#[test]
fn owner_is_empty_exactly_when_unresolvable() {
    let mut users = UserTable::new();
    users.add(1000, String::from("alice"));
    users.add(1001, String::from("bob"));
    let raws = vec![
        raw(Some("hers"), Some(metadata(file_flags(), 1, 1000, 0o644)), None),
        raw(Some("his"), Some(metadata(file_flags(), 1, 1001, 0o644)), None),
        raw(Some("nobodys"), Some(metadata(file_flags(), 1, 4242, 0o644)), None),
    ];
    let entries = collect_entries(&raws, &users);
    assert_eq!(entries[0].owner.as_ref().map(|u| u.get_name()), Some(String::from("alice")));
    assert_eq!(entries[1].owner.as_ref().map(|u| u.get_name()), Some(String::from("bob")));
    assert!(entries[2].owner.is_none());
    assert!(entries[0].as_string().contains("alice"));
    assert!(!entries[2].as_string().contains("alice"));
}
