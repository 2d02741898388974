use yoink::errors::CollectError;
use yoink::rules::{
    classify_doc, get_rule_name, get_rule_platform, CollectionRule, EmbeddedRule, RuleDoc,
};

fn file_rule_yaml() -> String {
    [
        "name: mft",
        "description: NTFS master file table",
        "platform: windows",
        "rule_type: file",
        "paths: [\"C:\\\\$MFT\"]",
        "recursion_depth: 0",
    ]
    .join("\n")
}

fn memory_rule_yaml() -> String {
    [
        "name: browsers",
        "description: browser process memory",
        "platform: linux",
        "rule_type: memory",
        "process_names: [\"chrome\", \"firefox\"]",
        "pids: [4242]",
    ]
    .join("\n")
}

fn command_rule_yaml() -> String {
    [
        "name: ps",
        "description: process list",
        "platform: linux",
        "rule_type: command",
        "binary: /bin/ps",
        "arguments: aux",
    ]
    .join("\n")
}

#[test]
fn parses_file_rule() {
    let rule = CollectionRule::from_yaml_string(&file_rule_yaml()).unwrap();
    match rule {
        CollectionRule::FileRule(f) => {
            assert_eq!(f.name, "mft");
            assert_eq!(f.description, "NTFS master file table");
            assert_eq!(f.platform, "windows");
            assert_eq!(f.rule_type, "file");
            assert_eq!(f.paths, vec!["C:\\$MFT".to_string()]);
            assert_eq!(f.recursion_depth, 0);
        }
        _ => panic!("expected a file rule"),
    }
}

#[test]
fn parses_memory_rule() {
    let rule = CollectionRule::from_yaml_string(&memory_rule_yaml()).unwrap();
    match rule {
        CollectionRule::MemoryRule(m) => {
            assert_eq!(m.name, "browsers");
            assert_eq!(m.process_names, vec!["chrome".to_string(), "firefox".to_string()]);
            assert_eq!(m.pids, vec![4242u32]);
        }
        _ => panic!("expected a memory rule"),
    }
}

#[test]
fn parses_command_rule() {
    let rule = CollectionRule::from_yaml_string(&command_rule_yaml()).unwrap();
    match rule {
        CollectionRule::CommandRule(c) => {
            assert_eq!(c.binary, "/bin/ps");
            assert_eq!(c.arguments, "aux");
        }
        _ => panic!("expected a command rule"),
    }
}

#[test]
fn memory_shape_wins_over_file_shape() {
    // A document carrying the fields of every shape is classified in the
    // fixed order: memory first.
    let yaml = [
        "name: all",
        "description: everything",
        "platform: linux",
        "rule_type: memory",
        "process_names: [\"x\"]",
        "pids: []",
        "paths: [\"/tmp\"]",
        "recursion_depth: 1",
        "binary: /bin/true",
        "arguments: \"\"",
    ]
    .join("\n");
    let rule = CollectionRule::from_yaml_string(&yaml).unwrap();
    assert!(matches!(rule, CollectionRule::MemoryRule(_)));
}

#[test]
fn oversized_pid_rejects_the_memory_shape() {
    // 2^32 does not fit a PID, so the memory shape fails and the file
    // shape is tried next.
    let yaml = [
        "name: spill",
        "description: oversized pid",
        "platform: linux",
        "rule_type: memory",
        "process_names: [\"x\"]",
        "pids: [4294967296]",
        "paths: [\"/tmp\"]",
        "recursion_depth: 1",
    ]
    .join("\n");
    let rule = CollectionRule::from_yaml_string(&yaml).unwrap();
    assert!(matches!(rule, CollectionRule::FileRule(_)));
}

#[test]
fn unparseable_document_fails() {
    let r = CollectionRule::from_yaml_string("name: only-a-name");
    assert!(matches!(r, Err(CollectError::RuleParseError)));
    let r = CollectionRule::from_yaml_string(": : :");
    assert!(matches!(r, Err(CollectError::RuleParseError)));
    assert_eq!(
        CollectError::RuleParseError.message(),
        "failed to parse document into any known rule type"
    );
}

#[test]
fn classify_doc_requires_all_fields_of_a_shape() {
    let doc = RuleDoc {
        name: Some("x".to_string()),
        description: Some("d".to_string()),
        platform: Some("linux".to_string()),
        rule_type: Some("file".to_string()),
        paths: None,
        recursion_depth: Some(1),
        process_names: None,
        pids: None,
        binary: None,
        arguments: None,
    };
    assert!(matches!(classify_doc(doc), Err(CollectError::RuleParseError)));
}

fn catalogue() -> Vec<CollectionRule> {
    vec![
        CollectionRule::from_yaml_string(&file_rule_yaml()).unwrap(),
        CollectionRule::from_yaml_string(&memory_rule_yaml()).unwrap(),
        CollectionRule::from_yaml_string(&command_rule_yaml()).unwrap(),
    ]
}

#[test]
fn queries_filter_by_platform_and_type() {
    let by_platform = CollectionRule::get_rules_by_platform("linux", catalogue());
    assert_eq!(by_platform.len(), 2);
    for rule in &by_platform {
        assert_eq!(get_rule_platform(rule), "linux");
    }
    // The platform query is idempotent.
    let again = CollectionRule::get_rules_by_platform("linux", by_platform);
    assert_eq!(again.len(), 2);

    let by_type = CollectionRule::get_rules_by_type("file", catalogue());
    assert_eq!(by_type.len(), 1);
    assert_eq!(get_rule_name(&by_type[0]), "mft");

    let both = CollectionRule::get_rules_by_platform_and_type("linux", "memory", catalogue());
    assert_eq!(both.len(), 1);
    assert_eq!(get_rule_name(&both[0]), "browsers");

    let none = CollectionRule::get_rules_by_platform_and_type("windows", "memory", catalogue());
    assert_eq!(none.len(), 0);
}

#[test]
fn embedded_lookup_by_name() {
    let files = vec![
        EmbeddedRule { name: "mft".to_string(), contents: file_rule_yaml() },
        EmbeddedRule { name: "browsers".to_string(), contents: memory_rule_yaml() },
    ];
    let rule = CollectionRule::from_name("browsers", &files).unwrap();
    assert!(matches!(rule, CollectionRule::MemoryRule(_)));
    let missing = CollectionRule::from_name("nope", &files);
    assert!(matches!(missing, Err(CollectError::RuleNotFound)));

    let all = CollectionRule::get_all(&files).unwrap();
    assert_eq!(all.len(), 2);

    let broken = vec![EmbeddedRule { name: "bad".to_string(), contents: "x: 1".to_string() }];
    assert!(matches!(CollectionRule::get_all(&broken), Err(CollectError::RuleParseError)));
}
