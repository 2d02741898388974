use yoink::errors::CollectError;
use yoink::file_collect::{
    linux_ignored_roots, match_walk_entry_windows, walk_entry_match, walker_threads,
    windows_literal_artefacts, FileCollecter, FsEntry,
};
use yoink::matching::match_name_pattern;
use yoink::memory_collect::{process_matches_rule, MemoryCollecter, Process};
use yoink::rules::{CollectionRule, FileRule, MemoryRule};

fn file_rule(name: &str, platform: &str, paths: Vec<&str>) -> FileRule {
    FileRule {
        name: name.to_string(),
        description: "d".to_string(),
        platform: platform.to_string(),
        rule_type: "file".to_string(),
        paths: paths.into_iter().map(|p| p.to_string()).collect(),
        recursion_depth: 3,
    }
}

fn memory_rule(name: &str, platform: &str, names: Vec<&str>, pids: Vec<u32>) -> MemoryRule {
    MemoryRule {
        name: name.to_string(),
        description: "d".to_string(),
        platform: platform.to_string(),
        rule_type: "memory".to_string(),
        process_names: names.into_iter().map(|p| p.to_string()).collect(),
        pids,
    }
}

#[test]
fn file_collecter_keeps_only_its_rules() {
    let catalogue = vec![
        CollectionRule::FileRule(file_rule("a", "linux", vec!["/etc/passwd"])),
        CollectionRule::FileRule(file_rule("b", "windows", vec!["C:\\$MFT"])),
        CollectionRule::MemoryRule(memory_rule("m", "linux", vec!["x"], vec![])),
    ];
    let collecter = FileCollecter::new("linux".to_string(), catalogue).unwrap();
    assert_eq!(collecter.rules.len(), 1);
    assert_eq!(collecter.rules[0].name, "a");
    assert!(collecter.files.is_empty());
}

#[test]
fn add_rule_rejections() {
    let mut collecter = FileCollecter::new("linux".to_string(), Vec::new()).unwrap();
    let wrong = CollectionRule::FileRule(file_rule("w", "windows", vec!["C:\\x"]));
    assert!(matches!(collecter.add_rule(wrong), Err(CollectError::WrongPlatformRule)));
    assert_eq!(
        CollectError::WrongPlatformRule.message(),
        "rule platform does not match the current platform"
    );

    let ok = CollectionRule::FileRule(file_rule("a", "linux", vec!["/etc/passwd"]));
    assert!(collecter.add_rule(ok).is_ok());
    let duplicate = CollectionRule::FileRule(file_rule("a", "linux", vec!["/etc/hosts"]));
    assert!(matches!(collecter.add_rule(duplicate), Err(CollectError::DuplicateRule)));

    let not_a_file_rule = CollectionRule::MemoryRule(memory_rule("m", "linux", vec![], vec![]));
    assert!(matches!(collecter.add_rule(not_a_file_rule), Err(CollectError::RuleParseError)));
    assert_eq!(collecter.rules.len(), 1);
}

#[test]
fn walk_entry_match_tries_path_and_base_name() {
    let patterns = vec!["\\.conf$".to_string(), "hostname".to_string()];
    assert!(walk_entry_match(&patterns, "/etc/nginx/nginx.conf", "nginx.conf"));
    assert!(walk_entry_match(&patterns, "/etc/hostname", "hostname"));
    assert!(!walk_entry_match(&patterns, "/etc/passwd", "passwd"));
    // An invalid pattern matches nothing and poisons nothing.
    let broken = vec!["[unclosed".to_string(), "passwd".to_string()];
    assert!(walk_entry_match(&broken, "/etc/passwd", "passwd"));
    assert!(!walk_entry_match(&vec!["[unclosed".to_string()], "/etc/passwd", "passwd"));
}

#[test]
fn collect_by_rule_emits_literals_then_matches() {
    let rule = file_rule("r", "linux", vec!["/etc/hostname", "shadow"]);
    let present = vec!["/etc/hostname".to_string()];
    let entries = vec![
        FsEntry { path: "/etc/shadow".to_string(), file_name: "shadow".to_string() },
        FsEntry { path: "/etc/passwd".to_string(), file_name: "passwd".to_string() },
    ];
    let got = FileCollecter::collect_by_rule(&rule, &present, &entries);
    // One round per pattern: the literal that exists, then the matched walk
    // entries, repeated for the second pattern (which is no literal).
    assert_eq!(
        got,
        vec![
            "/etc/hostname".to_string(),
            "/etc/shadow".to_string(),
            "/etc/shadow".to_string(),
        ]
    );
}

#[test]
fn collect_by_rulename_reports_count_or_not_found() {
    let catalogue = vec![CollectionRule::FileRule(file_rule("hosts", "linux", vec!["/etc/hosts"]))];
    let mut collecter = FileCollecter::new("linux".to_string(), catalogue).unwrap();
    let present = vec!["/etc/hosts".to_string()];
    let entries = Vec::new();
    assert_eq!(collecter.collect_by_rulename("hosts", &present, &entries).unwrap(), 1);
    assert_eq!(collecter.files, vec!["/etc/hosts".to_string()]);
    let missing = collecter.collect_by_rulename("nope", &present, &entries);
    assert!(matches!(missing, Err(CollectError::RuleNotFound)));
    assert_eq!(CollectError::RuleNotFound.message(), "no rule with this name");
}

#[test]
fn windows_walk_matches_reappend_the_stream() {
    // The pattern's stream suffix is split off before matching and joined
    // back onto the matched path.
    let patterns = vec!["test\\.txt:hidden".to_string()];
    let hit = match_walk_entry_windows(&patterns, "C:\\test.txt", "test.txt");
    assert_eq!(hit, Some("C:\\test.txt:hidden".to_string()));
    // A pattern without a stream emits the bare path; the first matching
    // pattern decides.
    let patterns = vec!["nothing".to_string(), "hosts".to_string(), "hosts:ads".to_string()];
    let hit = match_walk_entry_windows(&patterns, "/etc/hosts", "hosts");
    assert_eq!(hit, Some("/etc/hosts".to_string()));
    assert_eq!(match_walk_entry_windows(&patterns, "/etc/passwd", "passwd"), None);
}

#[test]
fn windows_literals_are_emitted_per_drive() {
    // One literal found on two drives yields one artefact per drive, in the
    // drive-colon-relative form, with the stream suffix only when asked for.
    let drives = vec!["C".to_string(), "D".to_string()];
    let paths = vec!["C:\\$MFT".to_string(), "C:\\test.txt:hidden".to_string()];
    let found = vec![vec![true, true], vec![true, false]];
    let got = windows_literal_artefacts(&drives, &found, &paths);
    assert_eq!(
        got,
        vec![
            "C:\\$MFT".to_string(),
            "C:\\test.txt:hidden".to_string(),
            "D:\\$MFT".to_string(),
        ]
    );
    // The probe artefact round-trips into the archive entry name.
    assert_eq!(yoink::paths::zip_entry_name(&got[0], false, true), "C\\$MFT");
    assert_eq!(yoink::paths::zip_entry_name(&got[1], false, true), "C\\test.txt_hidden");
}

#[test]
fn walker_pool_is_bounded() {
    assert_eq!(walker_threads(4), 4);
    assert_eq!(walker_threads(12), 12);
    assert_eq!(walker_threads(64), 12);
}

#[test]
fn ignored_roots_only_for_full_walks() {
    let full = file_rule("f", "linux", vec!["**/*.log"]);
    assert_eq!(
        linux_ignored_roots(&full),
        vec!["/proc".to_string(), "/dev".to_string(), "/sys".to_string()]
    );
    let narrow = file_rule("n", "linux", vec!["/var/log/syslog"]);
    assert!(linux_ignored_roots(&narrow).is_empty());
}

#[test]
fn name_patterns_match_case_insensitively() {
    // A valid regular expression is held against the lowercased name.
    assert!(match_name_pattern("chro", "Chrome"));
    assert!(match_name_pattern("^chrome$", "CHROME"));
    assert!(!match_name_pattern("^chrome$", "chromium"));
    // An invalid one falls back to a case-insensitive literal comparison.
    assert!(match_name_pattern("[fire", "[FIRE"));
    assert!(!match_name_pattern("[fire", "firefox"));
}

#[test]
fn process_selection_by_name_or_pid() {
    let rule = memory_rule("m", "linux", vec!["^sshd$"], vec![99]);
    assert!(process_matches_rule(&rule, &Process { name: "sshd".to_string(), pid: 1 }));
    assert!(process_matches_rule(&rule, &Process { name: "SSHD".to_string(), pid: 1 }));
    assert!(!process_matches_rule(&rule, &Process { name: "sshd-agent".to_string(), pid: 1 }));
    assert!(process_matches_rule(&rule, &Process { name: "other".to_string(), pid: 99 }));
}

#[test]
fn memory_add_rule_rejections() {
    let mut collecter = MemoryCollecter::new("linux".to_string(), Vec::new()).unwrap();
    let wrong = CollectionRule::MemoryRule(memory_rule("w", "windows", vec!["x"], vec![]));
    assert!(matches!(collecter.add_rule(wrong), Err(CollectError::WrongPlatformRule)));
    let ok = CollectionRule::MemoryRule(memory_rule("m", "linux", vec!["x"], vec![]));
    assert!(collecter.add_rule(ok).is_ok());
    let duplicate = CollectionRule::MemoryRule(memory_rule("m", "linux", vec!["y"], vec![]));
    assert!(matches!(collecter.add_rule(duplicate), Err(CollectError::DuplicateRule)));
    let not_memory = CollectionRule::FileRule(file_rule("f", "linux", vec!["/x"]));
    assert!(matches!(collecter.add_rule(not_memory), Err(CollectError::RuleParseError)));
}

#[test]
fn memory_collecter_selects_and_records() {
    let catalogue = vec![CollectionRule::MemoryRule(memory_rule(
        "ssh",
        "linux",
        vec!["^sshd$"],
        vec![],
    ))];
    let mut collecter = MemoryCollecter::new("linux".to_string(), catalogue).unwrap();
    assert_eq!(collecter.rules.len(), 1);
    let processes = vec![
        Process { name: "init".to_string(), pid: 1 },
        Process { name: "sshd".to_string(), pid: 817 },
    ];
    let selected = collecter.processes_to_dump("ssh", &processes).unwrap();
    assert_eq!(selected.len(), 1);
    assert_eq!(selected[0].pid, 817);
    assert!(matches!(
        collecter.processes_to_dump("none", &processes),
        Err(CollectError::RuleNotFound)
    ));

    let count = collecter
        .collect_by_rulename("ssh", vec!["/tmp/sshd_1.dmp".to_string()])
        .unwrap();
    assert_eq!(count, 1);
    assert_eq!(collecter.get_memory_dumps(), vec!["/tmp/sshd_1.dmp".to_string()]);
    assert!(matches!(
        collecter.collect_by_rulename("none", Vec::new()),
        Err(CollectError::RuleNotFound)
    ));
}
