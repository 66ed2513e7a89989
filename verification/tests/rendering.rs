use lslite::entry::{get_file_entry, EntryKind, EntryMeta, FileEntry, ScanError};
use lslite::listing::PathInfo;
use lslite::render::{
    colorize_paths, detail_line, render_compact, render_timestamp, MAX_FORMATTABLE_SECS,
    MIN_FORMATTABLE_SECS,
};
use lslite::textfmt::{bool_text, pad_left, pad_right, spaces, u32_to_oct, u64_to_dec};

#[test]
fn decimal_digits_exact() {
    assert_eq!(u64_to_dec(0), "0");
    assert_eq!(u64_to_dec(7), "7");
    assert_eq!(u64_to_dec(42), "42");
    assert_eq!(u64_to_dec(1024), "1024");
    assert_eq!(u64_to_dec(u64::MAX), "18446744073709551615");
}

#[test]
fn octal_digits_exact() {
    assert_eq!(u32_to_oct(0), "0");
    assert_eq!(u32_to_oct(0o644), "644");
    assert_eq!(u32_to_oct(0o777), "777");
    assert_eq!(u32_to_oct(8), "10");
    assert_eq!(u32_to_oct(u32::MAX), format!("{:o}", u32::MAX));
}

#[test]
fn padding_exact() {
    assert_eq!(spaces(0), "");
    assert_eq!(spaces(3), "   ");
    assert_eq!(pad_left("42".to_string(), 10), "        42");
    assert_eq!(pad_right("false".to_string(), 5), "false");
    assert_eq!(pad_right("true".to_string(), 5), "true ");
    assert_eq!(pad_left("abcdef".to_string(), 4), "abcdef");
    assert_eq!(pad_right("abcdef".to_string(), 4), "abcdef");
    assert_eq!(bool_text(true), "true");
    assert_eq!(bool_text(false), "false");
}

#[test]
fn detailed_line_for_a_plain_file() {
    let line = detail_line("file.txt", false, 42, 0o644, "N/A");
    let expected = format!("{:<20} {:<5} {:>10} {:>4o} {}", "file.txt", false, 42u64, 0o644, "N/A");
    assert_eq!(line, expected);
    assert!(line.contains(" 644 "));
    assert!(line.contains("        42"));
    assert!(line.contains("false"));
    assert!(line.ends_with(" N/A"));
}

#[test]
fn detailed_line_for_a_directory() {
    let line = detail_line("Adir", true, 0, 0o755, "2024-01-02 03:04:05");
    let expected =
        format!("{:<20} {:<5} {:>10} {:>4o} {}", "Adir", true, 0u64, 0o755, "2024-01-02 03:04:05");
    assert_eq!(line, expected);
}

#[test]
fn missing_timestamp_renders_placeholder() {
    assert_eq!(render_timestamp(None), "N/A");
}

#[test]
fn present_timestamp_renders_local_calendar_time() {
    let text = render_timestamp(Some(0));
    let chars: Vec<char> = text.chars().collect();
    assert_eq!(chars.len(), 19);
    assert_eq!(chars[4], '-');
    assert_eq!(chars[7], '-');
    assert_eq!(chars[10], ' ');
    assert_eq!(chars[13], ':');
    assert_eq!(chars[16], ':');
    assert_ne!(text, "N/A");
}

#[test]
fn timestamps_inside_the_calendar_bounds_render() {
    let at_max = render_timestamp(Some(MAX_FORMATTABLE_SECS));
    assert_ne!(at_max, "N/A");
    assert!(at_max.chars().count() >= 19);
    let at_min = render_timestamp(Some(MIN_FORMATTABLE_SECS));
    assert_ne!(at_min, "N/A");
    assert!(at_min.chars().count() >= 19);
}

#[test]
fn timestamps_outside_the_calendar_bounds_degrade() {
    assert_eq!(render_timestamp(Some(MAX_FORMATTABLE_SECS + 1)), "N/A");
    assert_eq!(render_timestamp(Some(MIN_FORMATTABLE_SECS - 1)), "N/A");
    assert_eq!(render_timestamp(Some(i64::MAX)), "N/A");
    assert_eq!(render_timestamp(Some(i64::MIN)), "N/A");
}

#[test]
fn entry_from_full_metadata_masks_permission_bits() {
    let meta = EntryMeta {
        kind: EntryKind::RegularFile,
        size: 42,
        mode: 0o100644,
        modified: Some(1_700_000_000),
    };
    let entry = get_file_entry(Some("b.txt".to_string()), None, Some(meta)).unwrap();
    assert_eq!(entry.name, "b.txt");
    assert_eq!(entry.kind, EntryKind::RegularFile);
    assert_eq!(entry.size, 42);
    assert_eq!(entry.permissions, 0o644);
    assert_eq!(entry.last_edited, Some(1_700_000_000));
}

#[test]
fn entry_without_name_is_rejected() {
    let r = get_file_entry(None, None, None);
    assert_eq!(r, Err(ScanError::InvalidEntryName));
}

#[test]
fn entry_without_metadata_degrades() {
    let entry = get_file_entry(Some(".cfg".to_string()), Some(EntryKind::Directory), None).unwrap();
    assert_eq!(entry.kind, EntryKind::Directory);
    assert_eq!(entry.size, 0);
    assert_eq!(entry.permissions, 0);
    assert_eq!(entry.last_edited, None);

    let plain = get_file_entry(Some("x".to_string()), None, None).unwrap();
    assert_eq!(plain.kind, EntryKind::RegularFile);
}

#[test]
fn rendered_line_degrades_to_placeholder_timestamp() {
    let entry = FileEntry {
        name: "b.txt".to_string(),
        kind: EntryKind::RegularFile,
        size: 42,
        permissions: 0o644,
        last_edited: None,
    };
    let line = entry.render();
    assert!(line.contains("b.txt"));
    assert!(line.contains("false"));
    assert!(line.contains("42"));
    assert!(line.contains("644"));
    assert!(line.ends_with(" N/A"));
}

#[test]
fn rendered_line_with_timestamp_has_no_placeholder() {
    let entry = FileEntry {
        name: "Adir".to_string(),
        kind: EntryKind::Directory,
        size: 0,
        permissions: 0o755,
        last_edited: Some(0),
    };
    let line = entry.render();
    assert!(line.contains("Adir"));
    assert!(line.contains("true"));
    assert!(!line.ends_with("N/A"));
}

#[test]
fn color_codes_follow_the_entry_kind() {
    colored::control::set_override(true);
    let dir_token = render_compact(&PathInfo { path: "./Adir".to_string(), is_dir: true });
    let file_token = render_compact(&PathInfo { path: "./b.txt".to_string(), is_dir: false });
    colored::control::set_override(false);
    let bare_token = render_compact(&PathInfo { path: "./Adir".to_string(), is_dir: true });
    colored::control::unset_override();
    assert_eq!(dir_token, "\u{1b}[34mAdir\u{1b}[0m");
    assert_eq!(file_token, "\u{1b}[33mb.txt\u{1b}[0m");
    assert_eq!(bare_token, "Adir");
}

#[test]
fn compact_tokens_carry_the_display_names() {
    let files = vec![
        PathInfo { path: "./Adir".to_string(), is_dir: true },
        PathInfo { path: "./b.txt".to_string(), is_dir: false },
    ];
    let single = render_compact(&files[0]);
    assert!(single.contains("Adir"));
    assert!(!single.contains("/"));
    let tokens = colorize_paths(&files);
    assert_eq!(tokens.len(), 2);
    assert!(tokens[0].contains("Adir"));
    assert!(tokens[1].contains("b.txt"));
    assert!(!tokens[1].contains("./"));
}
