use yoink::paths::{
    basename, default_output_name, drive_relative, output_path_ok, parse_stream, path_components,
    strip_leading_separators, windows_artefact, zip_entry_name,
};
use yoink::timestamps::nt_to_unix_secs;
use yoink::sparse::{sparse_payload_start, SparseRun};

#[test]
fn parse_stream_splits_at_last_colon() {
    let (path, stream) = parse_stream("C:\\foo\\bar:ads");
    assert_eq!(path, "C:\\foo\\bar");
    assert_eq!(stream, "ads");
}

#[test]
fn parse_stream_keeps_drive_letter_colon() {
    let (path, stream) = parse_stream("C:\\foo");
    assert_eq!(path, "C:\\foo");
    assert_eq!(stream, "");
}

#[test]
fn parse_stream_without_any_colon() {
    let (path, stream) = parse_stream("/etc/hostname");
    assert_eq!(path, "/etc/hostname");
    assert_eq!(stream, "");
}

#[test]
fn parse_stream_with_several_colons() {
    let (path, stream) = parse_stream("foo:bar:baz");
    assert_eq!(path, "foo:bar");
    assert_eq!(stream, "baz");
}

#[test]
fn entry_name_for_memory_dump() {
    assert_eq!(zip_entry_name("/tmp/chrome_17000.dmp", true, false), "memory/chrome_17000.dmp");
    assert_eq!(
        zip_entry_name("C:\\Users\\x\\lsass_17000.dmp", true, true),
        "memory/lsass_17000.dmp"
    );
}

#[test]
fn entry_name_strips_drive_colon_on_windows() {
    assert_eq!(zip_entry_name("C:\\$MFT", false, true), "C\\$MFT");
}

#[test]
fn entry_name_joins_stream_with_underscore() {
    assert_eq!(zip_entry_name("C:\\test.txt:hidden", false, true), "C\\test.txt_hidden");
}

#[test]
fn entry_name_unchanged_elsewhere() {
    assert_eq!(zip_entry_name("/etc/hostname", false, false), "/etc/hostname");
}

#[test]
fn basename_takes_last_component() {
    assert_eq!(basename("/a/b/c.txt"), "c.txt");
    assert_eq!(basename("C:\\a\\b.dmp"), "b.dmp");
    assert_eq!(basename("plain"), "plain");
}

#[test]
fn windows_artefact_format() {
    // Exactly one drive colon; the stream colon only when a stream exists.
    assert_eq!(windows_artefact("C", "Windows\\System32", ""), "C:\\Windows\\System32");
    assert_eq!(windows_artefact("D", "x", "s"), "D:\\x:s");
}

#[test]
fn leading_separators_are_stripped() {
    assert_eq!(strip_leading_separators("\\$MFT"), "$MFT");
    assert_eq!(strip_leading_separators("//etc"), "etc");
    assert_eq!(strip_leading_separators("plain"), "plain");
}

#[test]
fn nt_timestamps_convert_to_unix_seconds() {
    assert_eq!(nt_to_unix_secs(0), -11_644_473_600);
    assert_eq!(nt_to_unix_secs(11_644_473_600 * 10_000_000), 0);
    assert_eq!(nt_to_unix_secs(11_644_473_601 * 10_000_000 + 9_999_999), 1);
}

#[test]
fn path_components_split_on_either_separator() {
    assert_eq!(path_components("\\Windows\\System32\\config\\SAM"),
        vec!["Windows".to_string(), "System32".to_string(), "config".to_string(),
             "SAM".to_string()]);
    assert_eq!(path_components("/etc//hostname/"), vec!["etc".to_string(),
        "hostname".to_string()]);
    assert!(path_components("///").is_empty());
}

#[test]
fn drive_relative_strips_the_drive_prefix() {
    assert_eq!(drive_relative("C:\\Windows\\notepad.exe"), "\\Windows\\notepad.exe");
    assert_eq!(drive_relative("\\Windows\\notepad.exe"), "\\Windows\\notepad.exe");
    assert_eq!(drive_relative("/etc/hostname"), "/etc/hostname");
}

#[test]
fn sparse_payload_starts_past_the_holes() {
    let runs = vec![
        SparseRun { is_hole: true, allocated_size: 4096 },
        SparseRun { is_hole: false, allocated_size: 8192 },
        SparseRun { is_hole: true, allocated_size: 1024 },
    ];
    assert_eq!(sparse_payload_start(&runs), 5120);
    assert_eq!(sparse_payload_start(&Vec::new()), 0);
    let saturated = vec![
        SparseRun { is_hole: true, allocated_size: u64::MAX },
        SparseRun { is_hole: true, allocated_size: 1 },
    ];
    assert_eq!(sparse_payload_start(&saturated), u64::MAX);
}

#[test]
fn output_path_must_end_in_zip() {
    assert!(output_path_ok("host_1.zip"));
    assert!(!output_path_ok("host_1.tar"));
    assert!(!output_path_ok("zip"));
    assert!(!output_path_ok(""));
}

#[test]
fn default_output_name_is_acceptable() {
    let name = default_output_name("forensics-host", 1700000000123);
    assert_eq!(name, "forensics-host_1700000000123.zip");
    assert!(output_path_ok(&name));
    assert_eq!(default_output_name("h", 0), "h_0.zip");
}
