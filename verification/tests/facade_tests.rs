use yoink::artefacts::dedup_artefacts;
use yoink::collecter::Collecter;
use yoink::errors::CollectError;
use yoink::file_collect::FsEntry;
use yoink::rules::{CollectionRule, FileRule, MemoryRule};

fn file_rule(name: &str, paths: Vec<&str>) -> CollectionRule {
    CollectionRule::FileRule(FileRule {
        name: name.to_string(),
        description: "d".to_string(),
        platform: "linux".to_string(),
        rule_type: "file".to_string(),
        paths: paths.into_iter().map(|p| p.to_string()).collect(),
        recursion_depth: 0,
    })
}

fn memory_rule(name: &str) -> CollectionRule {
    CollectionRule::MemoryRule(MemoryRule {
        name: name.to_string(),
        description: "d".to_string(),
        platform: "linux".to_string(),
        rule_type: "memory".to_string(),
        process_names: vec!["^sshd$".to_string()],
        pids: vec![],
    })
}

#[test]
fn dedup_keeps_first_occurrences() {
    let list = vec![
        "/etc/passwd".to_string(),
        "/etc/hosts".to_string(),
        "/etc/passwd".to_string(),
        "/etc/shadow".to_string(),
        "/etc/hosts".to_string(),
    ];
    let deduped = dedup_artefacts(&list);
    assert_eq!(
        deduped,
        vec!["/etc/passwd".to_string(), "/etc/hosts".to_string(), "/etc/shadow".to_string()]
    );
}

#[test]
fn facade_partitions_the_catalogue() {
    let catalogue = vec![file_rule("f", vec!["/etc/hosts"]), memory_rule("m")];
    let collecter = Collecter::new("linux".to_string(), None, catalogue).unwrap();
    assert_eq!(collecter.file.rules.len(), 1);
    assert_eq!(collecter.memory.rules.len(), 1);
    assert!(collecter.artefacts.is_empty());
}

#[test]
fn collect_by_rulename_dispatches() {
    let catalogue = vec![file_rule("f", vec!["/etc/hosts"]), memory_rule("m")];
    let mut collecter = Collecter::new("linux".to_string(), None, catalogue).unwrap();
    let present = vec!["/etc/hosts".to_string()];
    let entries: Vec<FsEntry> = Vec::new();
    assert_eq!(
        collecter.collect_by_rulename("f", &present, &entries, Vec::new()).unwrap(),
        1
    );
    assert_eq!(collecter.file.files, vec!["/etc/hosts".to_string()]);
    assert_eq!(
        collecter
            .collect_by_rulename("m", &present, &entries, vec!["/tmp/sshd_1.dmp".to_string()])
            .unwrap(),
        1
    );
    let missing = collecter.collect_by_rulename("x", &present, &entries, Vec::new());
    assert!(matches!(missing, Err(CollectError::RuleNotFound)));
}

#[test]
fn duplicate_artefacts_across_rules_become_one_entry() {
    // Two rules both collect /etc/passwd; the archive holds it once.
    let catalogue = vec![
        file_rule("one", vec!["/etc/passwd"]),
        file_rule("two", vec!["/etc/passwd"]),
    ];
    let mut collecter = Collecter::new("linux".to_string(), None, catalogue).unwrap();
    let present = vec!["/etc/passwd".to_string()];
    let entries: Vec<FsEntry> = Vec::new();
    collecter.collect_all(&present, &entries, Vec::new()).unwrap();
    assert_eq!(collecter.file.files.len(), 2);
    let plan = collecter.prepare_archive(false).unwrap();
    assert_eq!(plan.entries.len(), 1);
    assert_eq!(plan.entries[0].source, "/etc/passwd");
    assert_eq!(plan.entries[0].entry_name, "/etc/passwd");
    assert!(!plan.entries[0].is_memory);
}

#[test]
fn empty_collection_cannot_be_compressed() {
    let mut collecter = Collecter::new("linux".to_string(), None, Vec::new()).unwrap();
    let plan = collecter.prepare_archive(false);
    assert!(matches!(plan, Err(CollectError::NothingToCompress)));
    assert_eq!(CollectError::NothingToCompress.message(), "no artefacts to compress");
}

#[test]
fn plan_names_windows_and_memory_entries() {
    let catalogue = vec![file_rule("mft", vec!["C:\\$MFT"]), memory_rule("m")];
    let mut collecter =
        Collecter::new("linux".to_string(), Some("pw".to_string()), catalogue).unwrap();
    let present = vec!["C:\\$MFT".to_string(), "C:\\test.txt:hidden".to_string()];
    let entries: Vec<FsEntry> = Vec::new();
    collecter.collect_by_rulename("mft", &present, &entries, Vec::new()).unwrap();
    collecter.file.files.push("C:\\test.txt:hidden".to_string());
    collecter
        .collect_by_rulename("m", &present, &entries, vec!["C:\\work\\sshd_9.dmp".to_string()])
        .unwrap();
    let plan = collecter.prepare_archive(true).unwrap();
    // The key is retained verbatim for the archiver.
    assert_eq!(plan.encryption_key, Some("pw".to_string()));
    assert_eq!(plan.entries.len(), 3);
    assert_eq!(plan.entries[0].entry_name, "C\\$MFT");
    assert_eq!(plan.entries[1].entry_name, "C\\test.txt_hidden");
    assert_eq!(plan.entries[2].entry_name, "memory/sshd_9.dmp");
    assert!(plan.entries[2].is_memory);
    // The dumps stay recorded for the cleanup at the end of the collection.
    assert_eq!(
        collecter.memory.get_memory_dumps(),
        vec!["C:\\work\\sshd_9.dmp".to_string()]
    );
}

#[test]
fn linux_literal_path_end_to_end() {
    // The whole library-side pipeline for one literal-path rule: the YAML
    // document becomes a rule, the rule collects the probed path, and the
    // plan holds exactly that path as its one entry.
    let yaml = [
        "name: hostname",
        "description: host name file",
        "platform: linux",
        "rule_type: file",
        "paths: [\"/etc/hostname\"]",
        "recursion_depth: 0",
    ]
    .join("\n");
    let rule = CollectionRule::from_yaml_string(&yaml).unwrap();
    let mut collecter = Collecter::new("linux".to_string(), None, vec![rule]).unwrap();
    let present = vec!["/etc/hostname".to_string()];
    let entries: Vec<FsEntry> = Vec::new();
    let count = collecter
        .collect_by_rulename("hostname", &present, &entries, Vec::new())
        .unwrap();
    assert_eq!(count, 1);
    let plan = collecter.prepare_archive(false).unwrap();
    assert_eq!(plan.entries.len(), 1);
    assert_eq!(plan.entries[0].entry_name, "/etc/hostname");
    assert_eq!(plan.entries[0].source, "/etc/hostname");
    assert!(plan.encryption_key.is_none());
}

#[test]
fn add_rule_from_file_dispatches_by_shape() {
    let mut collecter = Collecter::new("linux".to_string(), None, Vec::new()).unwrap();
    let yaml = [
        "name: hosts",
        "description: hosts file",
        "platform: linux",
        "rule_type: file",
        "paths: [\"/etc/hosts\"]",
        "recursion_depth: 0",
    ]
    .join("\n");
    collecter.add_rule_from_file(&yaml).unwrap();
    assert_eq!(collecter.file.rules.len(), 1);
    // The same rule again is a duplicate.
    assert!(matches!(
        collecter.add_rule_from_file(&yaml),
        Err(CollectError::DuplicateRule)
    ));
    // A command rule belongs to neither collector.
    let cmd = [
        "name: ps",
        "description: d",
        "platform: linux",
        "rule_type: command",
        "binary: /bin/ps",
        "arguments: aux",
    ]
    .join("\n");
    assert!(matches!(
        collecter.add_rule_from_file(&cmd),
        Err(CollectError::RuleParseError)
    ));
}
