//! Truncation, numbering and formatting tests for the tool text helpers.

use pi::tools::{
    add_line_numbers, format_size, is_image_file, ls_row, resolve_path, sort_ls_entries,
    truncate_head, truncate_line, truncate_string_to_bytes_from_end, truncate_tail, LsEntry,
    TruncatedBy,
};

#[test]
fn test_truncate_head() {
    let content = "line1\nline2\nline3\nline4\nline5";
    let result = truncate_head(content, 3, 1000);

    assert_eq!(result.content, "line1\nline2\nline3");
    assert!(result.truncated);
    assert_eq!(result.truncated_by, Some(TruncatedBy::Lines));
    assert_eq!(result.total_lines, 5);
    assert_eq!(result.output_lines, 3);
}

#[test]
fn test_truncate_tail() {
    let content = "line1\nline2\nline3\nline4\nline5";
    let result = truncate_tail(content, 3, 1000);

    assert_eq!(result.content, "line3\nline4\nline5");
    assert!(result.truncated);
    assert_eq!(result.truncated_by, Some(TruncatedBy::Lines));
    assert_eq!(result.total_lines, 5);
    assert_eq!(result.output_lines, 3);
}

#[test]
fn test_truncate_by_bytes() {
    let content = "short\nthis is a longer line\nanother";
    let result = truncate_head(content, 100, 15);

    assert!(result.truncated);
    assert_eq!(result.truncated_by, Some(TruncatedBy::Bytes));
}

#[test]
fn test_resolve_path_absolute() {
    let result = resolve_path("/absolute/path", "/home/user/project");
    assert_eq!(result, "/absolute/path");
}

#[test]
fn test_resolve_path_relative() {
    let result = resolve_path("src/main.rs", "/home/user/project");
    assert_eq!(result, "/home/user/project/src/main.rs");
}

#[test]
fn test_is_image_file() {
    assert!(is_image_file("image.png"));
    assert!(is_image_file("photo.JPG"));
    assert!(!is_image_file("code.rs"));
    assert!(!is_image_file("no_extension"));
}

#[test]
fn test_format_size() {
    assert_eq!(format_size(500), "500B");
    assert_eq!(format_size(1024), "1.0K");
    assert_eq!(format_size(1536), "1.5K");
    assert_eq!(format_size(1_048_576), "1.0M");
    assert_eq!(format_size(1_073_741_824), "1.0G");
}

#[test]
fn test_add_line_numbers() {
    let content = "first\nsecond\nthird";
    let result = add_line_numbers(content, 10);
    assert!(result.contains("10\tfirst"));
    assert!(result.contains("11\tsecond"));
    assert!(result.contains("12\tthird"));
}

#[test]
fn test_truncate_line() {
    let short = "short line";
    let result = truncate_line(short, 100);
    assert_eq!(result.text, "short line");
    assert!(!result.was_truncated);

    let long = "a".repeat(600);
    let result = truncate_line(&long, 500);
    assert!(result.was_truncated);
    assert!(result.text.ends_with("... [truncated]"));
}

#[test]
fn truncate_head_passthrough() {
    let content = "a\nb";
    let result = truncate_head(content, 10, 100);
    assert_eq!(result.content, "a\nb");
    assert!(!result.truncated);
    assert_eq!(result.truncated_by, None);
    assert_eq!(result.output_bytes, 3);
}

#[test]
fn truncate_head_huge_first_line() {
    let long = "x".repeat(40);
    let result = truncate_head(&long, 10, 8);
    assert_eq!(result.content, "");
    assert!(result.first_line_exceeds_limit);
    assert_eq!(result.truncated_by, Some(TruncatedBy::Bytes));
    assert_eq!(result.output_lines, 0);
}

#[test]
fn truncate_tail_partial_last_line() {
    let content = "aaaa\nbbbbbbbbbbbbbbbbbbbb";
    let result = truncate_tail(content, 5, 8);
    assert!(result.last_line_partial);
    assert_eq!(result.content, "bbbbbbbb");
    assert_eq!(result.output_lines, 1);
    assert_eq!(result.truncated_by, Some(TruncatedBy::Bytes));
}

#[test]
fn truncate_from_end_keeps_boundary() {
    assert_eq!(truncate_string_to_bytes_from_end("hello", 10), "hello");
    assert_eq!(truncate_string_to_bytes_from_end("hello", 3), "llo");
    // one two-byte character: a cut inside it drops it whole
    assert_eq!(truncate_string_to_bytes_from_end("a\u{00E9}b", 2), "b");
}

#[test]
fn format_size_rounds_half_to_even() {
    // 1280 bytes is exactly 1.25K; one decimal rounds half to even: 1.2K
    assert_eq!(format_size(1280), "1.2K");
    // 1331.2 bytes would be 1.3K
    assert_eq!(format_size(1332), "1.3K");
}

#[test]
fn add_line_numbers_drops_trailing_newline_piece() {
    let result = add_line_numbers("a\n", 1);
    assert_eq!(result, "1\ta");
    let empty = add_line_numbers("", 1);
    assert_eq!(empty, "");
}

#[test]
fn compute_diff_reports_hunks() {
    // the walk skips differing lines on each side until the texts agree
    // again, so the hunk swallows the stretch from the change to the next
    // shared line
    let old_text = "a\nb\nc";
    let new_text = "a\nx\nc";
    let diff = pi::tools::compute_diff(old_text, new_text, "f.txt");
    assert_eq!(
        diff,
        "--- a/f.txt\n+++ b/f.txt\n@@ -2,2 +2,2 @@\n-b\n-c\n+x\n+c\n"
    );
}

#[test]
fn compute_diff_resyncs_on_trailing_change() {
    let diff = pi::tools::compute_diff("a\nb", "a\nz", "f.txt");
    assert_eq!(diff, "--- a/f.txt\n+++ b/f.txt\n@@ -2,1 +2,1 @@\n-b\n+z\n");
}

#[test]
fn compute_diff_of_equal_texts_is_just_headers() {
    let diff = pi::tools::compute_diff("same\ntext", "same\ntext", "f.txt");
    assert_eq!(diff, "--- a/f.txt\n+++ b/f.txt\n");
}

#[test]
fn compute_diff_handles_insertion_at_end() {
    let diff = pi::tools::compute_diff("a", "a\nb", "f.txt");
    assert_eq!(diff, "--- a/f.txt\n+++ b/f.txt\n@@ -2,0 +2,1 @@\n+b\n");
}

fn entry(name: &str, is_dir: bool, size: u64) -> LsEntry {
    LsEntry {
        name: name.to_string(),
        is_dir,
        size,
    }
}

#[test]
fn ls_entries_sort_directories_first_then_names() {
    let entries = vec![
        entry("zeta.txt", false, 10),
        entry("Alpha", true, 0),
        entry("beta.txt", false, 2048),
        entry("gamma", true, 0),
    ];
    let ordered = sort_ls_entries(entries, 10);
    let names: Vec<&str> = ordered.iter().map(|e| e.name.as_str()).collect();
    assert_eq!(names, vec!["Alpha", "gamma", "beta.txt", "zeta.txt"]);
}

#[test]
fn ls_rows_lay_out_sizes_and_directories() {
    assert_eq!(ls_row(&entry("src", true, 0)), "src/");
    assert_eq!(ls_row(&entry("a.txt", false, 500)), "    500B  a.txt");
    assert_eq!(ls_row(&entry("big.bin", false, 2048)), "    2.0K  big.bin");
}
