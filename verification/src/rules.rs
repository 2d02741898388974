//! The rule catalogue: the three rule shapes, document classification, and
//! the platform / type queries.
//!
//! A rule document is a YAML mapping. It is tried against the three rule
//! shapes in the fixed order memory, file, command; the first shape whose
//! required fields are all present and well-typed wins.

use vstd::prelude::*;
use crate::artefacts::{lemma_filter_all, lemma_filter_push};
use crate::errors::CollectError;

verus! {

/// A rule selecting processes to dump, by name patterns or by PID.
#[derive(Debug, Clone, PartialEq)]
pub struct MemoryRule {
    pub name: String,
    pub description: String,
    pub platform: String,
    pub rule_type: String,
    pub process_names: Vec<String>,
    pub pids: Vec<u32>,
}

/// A rule selecting files, by literal paths or path patterns, walked to a
/// bounded depth.
#[derive(Debug, Clone, PartialEq)]
pub struct FileRule {
    pub name: String,
    pub description: String,
    pub platform: String,
    pub rule_type: String,
    pub paths: Vec<String>,
    pub recursion_depth: usize,
}

/// A rule naming a binary to run with arguments; execution is a
/// collaborator outside this library.
#[derive(Debug, Clone, PartialEq)]
pub struct CommandRule {
    pub name: String,
    pub description: String,
    pub platform: String,
    pub rule_type: String,
    pub binary: String,
    pub arguments: String,
}

/// A rule of any of the three kinds.
#[derive(Debug, Clone, PartialEq)]
pub enum CollectionRule {
    CommandRule(CommandRule),
    FileRule(FileRule),
    MemoryRule(MemoryRule),
}

/// The rule's name.
pub open spec fn rule_name_spec(r: CollectionRule) -> Seq<char> {
    match r {
        CollectionRule::CommandRule(c) => c.name@,
        CollectionRule::FileRule(f) => f.name@,
        CollectionRule::MemoryRule(m) => m.name@,
    }
}

/// The rule's platform.
pub open spec fn rule_platform_spec(r: CollectionRule) -> Seq<char> {
    match r {
        CollectionRule::CommandRule(c) => c.platform@,
        CollectionRule::FileRule(f) => f.platform@,
        CollectionRule::MemoryRule(m) => m.platform@,
    }
}

/// The rule's declared type field.
pub open spec fn rule_type_spec(r: CollectionRule) -> Seq<char> {
    match r {
        CollectionRule::CommandRule(c) => c.rule_type@,
        CollectionRule::FileRule(f) => f.rule_type@,
        CollectionRule::MemoryRule(m) => m.rule_type@,
    }
}

/// The fields a rule document may carry, each one present and well-typed or
/// absent. This is the plain-value image of the parsed YAML mapping: the
/// shape tests below decide which rule kind, if any, the document describes.
pub struct RuleDoc {
    pub name: Option<String>,
    pub description: Option<String>,
    pub platform: Option<String>,
    pub rule_type: Option<String>,
    pub paths: Option<Vec<String>>,
    pub recursion_depth: Option<u64>,
    pub process_names: Option<Vec<String>>,
    pub pids: Option<Vec<u64>>,
    pub binary: Option<String>,
    pub arguments: Option<String>,
}

/// Every PID fits the 32-bit process identifier space.
pub open spec fn pids_fit(s: Seq<u64>) -> bool {
    forall|i: int| 0 <= i < s.len() ==> #[trigger] s[i] <= u32::MAX
}

/// The document has every field a memory rule requires, well-typed.
pub open spec fn memory_shape(d: RuleDoc) -> bool {
    &&& d.name is Some
    &&& d.description is Some
    &&& d.platform is Some
    &&& d.rule_type is Some
    &&& d.process_names is Some
    &&& d.pids is Some
    &&& pids_fit(d.pids.unwrap()@)
}

/// The document has every field a file rule requires, well-typed.
pub open spec fn file_shape(d: RuleDoc) -> bool {
    &&& d.name is Some
    &&& d.description is Some
    &&& d.platform is Some
    &&& d.rule_type is Some
    &&& d.paths is Some
    &&& d.recursion_depth is Some
    &&& d.recursion_depth.unwrap() <= usize::MAX
}

/// The document has every field a command rule requires.
pub open spec fn command_shape(d: RuleDoc) -> bool {
    &&& d.name is Some
    &&& d.description is Some
    &&& d.platform is Some
    &&& d.rule_type is Some
    &&& d.binary is Some
    &&& d.arguments is Some
}

/// Classify a rule document: the shapes are tried in the fixed order
/// memory, file, command, and the first that matches decides the variant.
/// A document matching none fails with `RuleParseError`.
pub fn classify_doc(doc: RuleDoc) -> (r: Result<CollectionRule, CollectError>)
    ensures
        memory_shape(doc) ==> (r matches Ok(rule) && rule matches CollectionRule::MemoryRule(m)
            && m.name == doc.name.unwrap() && m.description == doc.description.unwrap()
            && m.platform == doc.platform.unwrap() && m.rule_type == doc.rule_type.unwrap()
            && m.process_names == doc.process_names.unwrap() && m.pids@ == doc.pids.unwrap()@.map_values(
            |x: u64| x as u32,
        )),
        (!memory_shape(doc) && file_shape(doc)) ==> (r matches Ok(rule) && rule matches
            CollectionRule::FileRule(f) && f.name == doc.name.unwrap() && f.description
            == doc.description.unwrap() && f.platform == doc.platform.unwrap() && f.rule_type
            == doc.rule_type.unwrap() && f.paths == doc.paths.unwrap() && f.recursion_depth
            == doc.recursion_depth.unwrap() as usize),
        (!memory_shape(doc) && !file_shape(doc) && command_shape(doc)) ==> (r matches Ok(rule)
            && rule matches CollectionRule::CommandRule(c) && c.name == doc.name.unwrap()
            && c.description == doc.description.unwrap() && c.platform == doc.platform.unwrap()
            && c.rule_type == doc.rule_type.unwrap() && c.binary == doc.binary.unwrap()
            && c.arguments == doc.arguments.unwrap()),
        (!memory_shape(doc) && !file_shape(doc) && !command_shape(doc)) ==> r == Err::<
            CollectionRule,
            CollectError,
        >(CollectError::RuleParseError),
{
    let RuleDoc {
        name,
        description,
        platform,
        rule_type,
        paths,
        recursion_depth,
        process_names,
        pids,
        binary,
        arguments,
    } = doc;
    let header_ok = name.is_some() && description.is_some() && platform.is_some()
        && rule_type.is_some();

    let pids_ok: bool;
    let mut converted: Vec<u32> = Vec::new();
    match &pids {
        Some(pv) => {
            let mut fit = true;
            let mut i: usize = 0;
            while i < pv.len()
                invariant
                    i <= pv.len(),
                    fit == pids_fit(pv@.subrange(0, i as int)),
                    fit ==> converted@ == pv@.subrange(0, i as int).map_values(|x: u64| x as u32),
                decreases pv.len() - i,
            {
                let ghost pre = pv@.subrange(0, i as int);
                let keep_fit = fit;
                if pv[i] > u32::MAX as u64 {
                    fit = false;
                } else if keep_fit {
                    converted.push(pv[i] as u32);
                }
                proof {
                    let post = pv@.subrange(0, i + 1);
                    assert(post =~= pre.push(pv@[i as int]));
                    if fit {
                        assert(converted@ =~= post.map_values(|x: u64| x as u32));
                    }
                    if pids_fit(pre) && pv@[i as int] <= u32::MAX {
                        assert forall|j: int| 0 <= j < post.len() implies #[trigger] post[j]
                            <= u32::MAX by {
                            if j < i {
                                assert(post[j] == pre[j]);
                            }
                        }
                    }
                    if pids_fit(post) {
                        assert forall|j: int| 0 <= j < pre.len() implies #[trigger] pre[j]
                            <= u32::MAX by {
                            assert(pre[j] == post[j]);
                        }
                        assert(post[i as int] <= u32::MAX);
                    }
                }
                i = i + 1;
            }
            proof {
                assert(pv@.subrange(0, pv@.len() as int) =~= pv@);
            }
            pids_ok = fit;
        },
        None => {
            pids_ok = false;
        },
    }

    let rd_ok = match &recursion_depth {
        Some(v) => *v <= usize::MAX as u64,
        None => false,
    };

    let memory_ok = header_ok && process_names.is_some() && pids_ok;
    let file_ok = header_ok && paths.is_some() && rd_ok;
    let command_ok = header_ok && binary.is_some() && arguments.is_some();

    if memory_ok {
        Ok(
            CollectionRule::MemoryRule(
                MemoryRule {
                    name: name.unwrap(),
                    description: description.unwrap(),
                    platform: platform.unwrap(),
                    rule_type: rule_type.unwrap(),
                    process_names: process_names.unwrap(),
                    pids: converted,
                },
            ),
        )
    } else if file_ok {
        let rd = match &recursion_depth {
            Some(v) => *v,
            None => 0,
        };
        Ok(
            CollectionRule::FileRule(
                FileRule {
                    name: name.unwrap(),
                    description: description.unwrap(),
                    platform: platform.unwrap(),
                    rule_type: rule_type.unwrap(),
                    paths: paths.unwrap(),
                    recursion_depth: rd as usize,
                },
            ),
        )
    } else if command_ok {
        Ok(
            CollectionRule::CommandRule(
                CommandRule {
                    name: name.unwrap(),
                    description: description.unwrap(),
                    platform: platform.unwrap(),
                    rule_type: rule_type.unwrap(),
                    binary: binary.unwrap(),
                    arguments: arguments.unwrap(),
                },
            ),
        )
    } else {
        Err(CollectError::RuleParseError)
    }
}

/// Whether the text parses as one YAML document: what
/// serde_yaml::from_str returns Ok for. A function of the text alone.
pub uninterp spec fn yaml_wellformed(text: Seq<char>) -> bool;

/// The string under `key` in the document `text`, if the text parses, is a
/// mapping, holds the key, and the value is a string. A function of text
/// and key alone.
pub uninterp spec fn yaml_string_field(text: Seq<char>, key: Seq<char>) -> Option<Seq<char>>;

/// The unsigned number under `key`, under the same conditions.
pub uninterp spec fn yaml_u64_field(text: Seq<char>, key: Seq<char>) -> Option<u64>;

/// The list of strings under `key`: present, a sequence, and every element
/// a string.
pub uninterp spec fn yaml_string_list_field(text: Seq<char>, key: Seq<char>) -> Option<
    Seq<Seq<char>>,
>;

/// The list of unsigned numbers under `key`: present, a sequence, and every
/// element an unsigned number.
pub uninterp spec fn yaml_u64_list_field(text: Seq<char>, key: Seq<char>) -> Option<Seq<u64>>;

/// The characters behind an optional string.
pub open spec fn opt_str_view(o: Option<String>) -> Option<Seq<char>> {
    match o {
        Some(s) => Some(s@),
        None => None,
    }
}

/// The characters behind an optional string list.
pub open spec fn opt_str_list_view(o: Option<Vec<String>>) -> Option<Seq<Seq<char>>> {
    match o {
        Some(v) => Some(crate::artefacts::views(v@)),
        None => None,
    }
}

/// The numbers behind an optional number list.
pub open spec fn opt_u64_list_view(o: Option<Vec<u64>>) -> Option<Seq<u64>> {
    match o {
        Some(v) => Some(v@),
        None => None,
    }
}

/// Relies on serde_yaml::from_str: whether the text is one well-formed YAML
/// document.
#[verifier::external_body]
fn yaml_check(text: &str) -> (r: bool)
    ensures
        r == yaml_wellformed(text@),
{
    serde_yaml::from_str::<serde_yaml::Value>(text).is_ok()
}

/// Relies on serde_yaml::from_str, Value::get and Value::as_str: the string
/// field named by [`yaml_string_field`]. All three are functions of their
/// string arguments alone.
#[verifier::external_body]
fn string_field(text: &str, key: &str) -> (r: Option<String>)
    ensures
        opt_str_view(r) == yaml_string_field(text@, key@),
{
    match serde_yaml::from_str::<serde_yaml::Value>(text) {
        Ok(v) => v.get(key).and_then(|x| x.as_str()).map(|s| s.to_string()),
        Err(_) => None,
    }
}

/// Relies on serde_yaml::from_str, Value::get and Value::as_u64: the number
/// field named by [`yaml_u64_field`].
#[verifier::external_body]
fn u64_field(text: &str, key: &str) -> (r: Option<u64>)
    ensures
        r == yaml_u64_field(text@, key@),
{
    match serde_yaml::from_str::<serde_yaml::Value>(text) {
        Ok(v) => v.get(key).and_then(|x| x.as_u64()),
        Err(_) => None,
    }
}

/// Relies on serde_yaml::from_str, Value::get, Value::as_sequence and
/// Value::as_str: the string-list field named by [`yaml_string_list_field`],
/// all elements or nothing.
#[verifier::external_body]
fn string_list_field(text: &str, key: &str) -> (r: Option<Vec<String>>)
    ensures
        opt_str_list_view(r) == yaml_string_list_field(text@, key@),
{
    match serde_yaml::from_str::<serde_yaml::Value>(text) {
        Ok(v) => v.get(key).and_then(|x| x.as_sequence()).and_then(
            |items| items.iter().map(|it| it.as_str().map(|s| s.to_string())).collect(),
        ),
        Err(_) => None,
    }
}

/// Relies on serde_yaml::from_str, Value::get, Value::as_sequence and
/// Value::as_u64: the number-list field named by [`yaml_u64_list_field`],
/// all elements or nothing.
#[verifier::external_body]
fn u64_list_field(text: &str, key: &str) -> (r: Option<Vec<u64>>)
    ensures
        opt_u64_list_view(r) == yaml_u64_list_field(text@, key@),
{
    match serde_yaml::from_str::<serde_yaml::Value>(text) {
        Ok(v) => v.get(key).and_then(|x| x.as_sequence()).and_then(
            |items| items.iter().map(|it| it.as_u64()).collect(),
        ),
        Err(_) => None,
    }
}

/// The document's fields are exactly the named extractions from its text.
pub open spec fn doc_matches_text(d: RuleDoc, text: Seq<char>) -> bool {
    &&& opt_str_view(d.name) == yaml_string_field(text, "name"@)
    &&& opt_str_view(d.description) == yaml_string_field(text, "description"@)
    &&& opt_str_view(d.platform) == yaml_string_field(text, "platform"@)
    &&& opt_str_view(d.rule_type) == yaml_string_field(text, "rule_type"@)
    &&& opt_str_list_view(d.paths) == yaml_string_list_field(text, "paths"@)
    &&& d.recursion_depth == yaml_u64_field(text, "recursion_depth"@)
    &&& opt_str_list_view(d.process_names) == yaml_string_list_field(text, "process_names"@)
    &&& opt_u64_list_view(d.pids) == yaml_u64_list_field(text, "pids"@)
    &&& opt_str_view(d.binary) == yaml_string_field(text, "binary"@)
    &&& opt_str_view(d.arguments) == yaml_string_field(text, "arguments"@)
}

/// The text carries every field a memory rule requires, well-typed.
pub open spec fn memory_shape_text(text: Seq<char>) -> bool {
    &&& yaml_string_field(text, "name"@) is Some
    &&& yaml_string_field(text, "description"@) is Some
    &&& yaml_string_field(text, "platform"@) is Some
    &&& yaml_string_field(text, "rule_type"@) is Some
    &&& yaml_string_list_field(text, "process_names"@) is Some
    &&& yaml_u64_list_field(text, "pids"@) matches Some(p) && pids_fit(p)
}

/// The text carries every field a file rule requires, well-typed.
pub open spec fn file_shape_text(text: Seq<char>) -> bool {
    &&& yaml_string_field(text, "name"@) is Some
    &&& yaml_string_field(text, "description"@) is Some
    &&& yaml_string_field(text, "platform"@) is Some
    &&& yaml_string_field(text, "rule_type"@) is Some
    &&& yaml_string_list_field(text, "paths"@) is Some
    &&& yaml_u64_field(text, "recursion_depth"@) matches Some(n) && n <= usize::MAX
}

/// The text carries every field a command rule requires.
pub open spec fn command_shape_text(text: Seq<char>) -> bool {
    &&& yaml_string_field(text, "name"@) is Some
    &&& yaml_string_field(text, "description"@) is Some
    &&& yaml_string_field(text, "platform"@) is Some
    &&& yaml_string_field(text, "rule_type"@) is Some
    &&& yaml_string_field(text, "binary"@) is Some
    &&& yaml_string_field(text, "arguments"@) is Some
}

/// The text is a well-formed document matching at least one rule shape:
/// exactly the texts the parser accepts.
pub open spec fn text_classifies(text: Seq<char>) -> bool {
    &&& yaml_wellformed(text)
    &&& (memory_shape_text(text) || file_shape_text(text) || command_shape_text(text))
}

/// What rule a text parses to: the first shape in the fixed order memory,
/// file, command decides the variant, and every field equals its named
/// extraction from the text.
pub open spec fn parses_to(text: Seq<char>, rule: CollectionRule) -> bool {
    &&& yaml_wellformed(text)
    &&& if memory_shape_text(text) {
        rule matches CollectionRule::MemoryRule(m) && Some(m.name@) == yaml_string_field(
            text,
            "name"@,
        ) && Some(m.description@) == yaml_string_field(text, "description"@) && Some(m.platform@)
            == yaml_string_field(text, "platform"@) && Some(m.rule_type@) == yaml_string_field(
            text,
            "rule_type"@,
        ) && Some(crate::artefacts::views(m.process_names@)) == yaml_string_list_field(
            text,
            "process_names"@,
        ) && Some(m.pids@.map_values(|x: u32| x as u64)) == yaml_u64_list_field(text, "pids"@)
    } else if file_shape_text(text) {
        rule matches CollectionRule::FileRule(f) && Some(f.name@) == yaml_string_field(
            text,
            "name"@,
        ) && Some(f.description@) == yaml_string_field(text, "description"@) && Some(f.platform@)
            == yaml_string_field(text, "platform"@) && Some(f.rule_type@) == yaml_string_field(
            text,
            "rule_type"@,
        ) && Some(crate::artefacts::views(f.paths@)) == yaml_string_list_field(text, "paths"@)
            && Some(f.recursion_depth as u64) == yaml_u64_field(text, "recursion_depth"@)
    } else if command_shape_text(text) {
        rule matches CollectionRule::CommandRule(c) && Some(c.name@) == yaml_string_field(
            text,
            "name"@,
        ) && Some(c.description@) == yaml_string_field(text, "description"@) && Some(c.platform@)
            == yaml_string_field(text, "platform"@) && Some(c.rule_type@) == yaml_string_field(
            text,
            "rule_type"@,
        ) && Some(c.binary@) == yaml_string_field(text, "binary"@) && Some(c.arguments@)
            == yaml_string_field(text, "arguments"@)
    } else {
        false
    }
}

/// A document whose fields are the text's named extractions matches a rule
/// shape exactly when the text does.
proof fn lemma_shapes_agree(d: RuleDoc, text: Seq<char>)
    requires
        doc_matches_text(d, text),
    ensures
        memory_shape(d) == memory_shape_text(text),
        file_shape(d) == file_shape_text(text),
        command_shape(d) == command_shape_text(text),
{
}

/// Pull the fields of all three rule shapes out of one document's text.
/// `None` exactly when the text is no well-formed YAML document.
fn extract_doc(text: &str) -> (r: Option<RuleDoc>)
    ensures
        r is Some <==> yaml_wellformed(text@),
        r matches Some(d) ==> doc_matches_text(d, text@),
{
    if !yaml_check(text) {
        return None;
    }
    Some(
        RuleDoc {
            name: string_field(text, "name"),
            description: string_field(text, "description"),
            platform: string_field(text, "platform"),
            rule_type: string_field(text, "rule_type"),
            paths: string_list_field(text, "paths"),
            recursion_depth: u64_field(text, "recursion_depth"),
            process_names: string_list_field(text, "process_names"),
            pids: u64_list_field(text, "pids"),
            binary: string_field(text, "binary"),
            arguments: string_field(text, "arguments"),
        },
    )
}

impl CollectionRule {
    /// Parse one YAML rule document: succeeds exactly when the text is
    /// well-formed and matches some rule shape, returns the rule the text
    /// parses to, and fails with `RuleParseError` otherwise.
    pub fn from_yaml_string(yaml: &str) -> (r: Result<CollectionRule, CollectError>)
        ensures
            r is Ok <==> text_classifies(yaml@),
            r matches Ok(rule) ==> parses_to(yaml@, rule),
            r matches Err(e) ==> e == CollectError::RuleParseError,
    {
        match extract_doc(yaml) {
            Some(doc) => {
                let ghost d = doc;
                let result = classify_doc(doc);
                proof {
                    lemma_shapes_agree(d, yaml@);
                    if memory_shape(d) {
                        let m = result.unwrap()->MemoryRule_0;
                        assert(m.pids@.map_values(|x: u32| x as u64) =~= d.pids.unwrap()@);
                    }
                }
                result
            },
            None => Err(CollectError::RuleParseError),
        }
    }
}

/// One document of the catalogue bundled with the binary: the rule's stem
/// name and the document text. The bundle itself is loaded outside the
/// library and handed in as plain values.
pub struct EmbeddedRule {
    pub name: String,
    pub contents: String,
}

/// Keeps the rules of one platform.
pub open spec fn platform_pred(platform: Seq<char>) -> spec_fn(CollectionRule) -> bool {
    |x: CollectionRule| rule_platform_spec(x) == platform
}

/// Keeps the rules of one declared type.
pub open spec fn type_pred(rule_type: Seq<char>) -> spec_fn(CollectionRule) -> bool {
    |x: CollectionRule| rule_type_spec(x) == rule_type
}

/// Keeps the rules of one platform and one declared type.
pub open spec fn platform_type_pred(platform: Seq<char>, rule_type: Seq<char>) -> spec_fn(
    CollectionRule,
) -> bool {
    |x: CollectionRule| rule_platform_spec(x) == platform && rule_type_spec(x) == rule_type
}

/// Whether the rule's platform reads `plat`.
pub fn rule_has_platform(x: &CollectionRule, plat: &String) -> (r: bool)
    ensures
        r == (rule_platform_spec(*x) == plat@),
{
    match x {
        CollectionRule::CommandRule(rr) => rr.platform == *plat,
        CollectionRule::FileRule(rr) => rr.platform == *plat,
        CollectionRule::MemoryRule(rr) => rr.platform == *plat,
    }
}

/// Whether the rule's declared type reads `ty`.
pub fn rule_has_type(x: &CollectionRule, ty: &String) -> (r: bool)
    ensures
        r == (rule_type_spec(*x) == ty@),
{
    match x {
        CollectionRule::CommandRule(rr) => rr.rule_type == *ty,
        CollectionRule::FileRule(rr) => rr.rule_type == *ty,
        CollectionRule::MemoryRule(rr) => rr.rule_type == *ty,
    }
}

/// Whether the rule's name reads `name`.
pub fn rule_has_name(x: &CollectionRule, name: &String) -> (r: bool)
    ensures
        r == (rule_name_spec(*x) == name@),
{
    match x {
        CollectionRule::CommandRule(rr) => rr.name == *name,
        CollectionRule::FileRule(rr) => rr.name == *name,
        CollectionRule::MemoryRule(rr) => rr.name == *name,
    }
}

impl CollectionRule {
    /// Parse the whole embedded catalogue: one rule per document, in bundle
    /// order, failing on the first document that parses to no rule.
    /// Succeeds exactly when every document classifies, and then each rule
    /// is what its document parses to.
    pub fn get_all(files: &Vec<EmbeddedRule>) -> (r: Result<Vec<CollectionRule>, CollectError>)
        ensures
            r is Ok <==> (forall|i: int|
                0 <= i < files@.len() ==> text_classifies((#[trigger] files@[i]).contents@)),
            r matches Ok(v) ==> v@.len() == files@.len() && (forall|i: int|
                0 <= i < files@.len() ==> parses_to(
                    (#[trigger] files@[i]).contents@,
                    v@[i],
                )),
            r matches Err(e) ==> e == CollectError::RuleParseError,
    {
        let mut out: Vec<CollectionRule> = Vec::new();
        let mut i: usize = 0;
        while i < files.len()
            invariant
                i <= files.len(),
                out@.len() == i,
                forall|k: int|
                    0 <= k < i ==> text_classifies((#[trigger] files@[k]).contents@)
                        && parses_to(files@[k].contents@, out@[k]),
            decreases files.len() - i,
        {
            match CollectionRule::from_yaml_string(files[i].contents.as_str()) {
                Ok(rule) => out.push(rule),
                Err(e) => {
                    return Err(e);
                },
            }
            i = i + 1;
        }
        Ok(out)
    }

    /// Look one rule up in the embedded catalogue by its stem name.
    /// Fails with `RuleNotFound` exactly when no document has that name; the
    /// first document of the name decides, succeeding with what it parses to
    /// and failing with `RuleParseError` when it classifies as no rule.
    pub fn from_name(name: &str, files: &Vec<EmbeddedRule>) -> (r: Result<
        CollectionRule,
        CollectError,
    >)
        ensures
            (forall|i: int| 0 <= i < files@.len() ==> (#[trigger] files@[i].name)@ != name@) ==> r
                == Err::<CollectionRule, CollectError>(CollectError::RuleNotFound),
            forall|j: int|
                (0 <= j < files@.len() && (#[trigger] files@[j].name)@ == name@ && (forall|k: int|
                    0 <= k < j ==> (#[trigger] files@[k].name)@ != name@)) ==> {
                    &&& r is Ok <==> text_classifies(files@[j].contents@)
                    &&& (r matches Ok(rule) ==> parses_to(files@[j].contents@, rule))
                    &&& (!text_classifies(files@[j].contents@) ==> r == Err::<
                        CollectionRule,
                        CollectError,
                    >(CollectError::RuleParseError))
                },
            r matches Err(e) ==> e == CollectError::RuleNotFound || e
                == CollectError::RuleParseError,
    {
        let wanted = name.to_owned();
        let mut i: usize = 0;
        while i < files.len()
            invariant
                i <= files.len(),
                wanted@ == name@,
                forall|k: int| 0 <= k < i ==> (#[trigger] files@[k].name)@ != name@,
            decreases files.len() - i,
        {
            if files[i].name == wanted {
                return CollectionRule::from_yaml_string(files[i].contents.as_str());
            }
            i = i + 1;
        }
        Err(CollectError::RuleNotFound)
    }

    /// The catalogue's rules whose platform is `platform`, in order.
    pub fn get_rules_by_platform(platform: &str, rules: Vec<CollectionRule>) -> (r: Vec<
        CollectionRule,
    >)
        ensures
            r@ == rules@.filter(platform_pred(platform@)),
    {
        let ghost orig = rules@;
        let plat = platform.to_owned();
        let mut rest = rules;
        let mut out: Vec<CollectionRule> = Vec::new();
        proof {
            assert(orig.subrange(0, 0).filter(platform_pred(platform@)) =~= Seq::<CollectionRule>::empty()) by {
                reveal(Seq::filter);
            }
            assert(rest@ =~= orig.subrange(0, orig.len() as int));
        }
        while rest.len() > 0
            invariant
                plat@ == platform@,
                rest@.len() <= orig.len(),
                rest@ == orig.subrange(orig.len() - rest@.len(), orig.len() as int),
                out@ == orig.subrange(0, orig.len() - rest@.len()).filter(platform_pred(platform@)),
            decreases rest@.len(),
        {
            let ghost k = orig.len() - rest@.len();
            let x = rest.remove(0);
            proof {
                assert(x == orig[k as int]);
            }
            let keep = rule_has_platform(&x, &plat);
            proof {
                assert(keep == platform_pred(platform@)(x));
            }
            if keep {
                out.push(x);
            }
            proof {
                assert(orig.subrange(0, k + 1) =~= orig.subrange(0, k as int) + seq![
                    orig[k as int],
                ]);
                lemma_filter_push(orig.subrange(0, k as int), orig[k as int], platform_pred(platform@));
                assert(rest@ =~= orig.subrange(k + 1, orig.len() as int));
            }
        }
        proof {
            assert(orig.subrange(0, orig.len() as int) =~= orig);
        }
        out
    }

    /// The catalogue's rules whose declared type is `rule_type`, in order.
    pub fn get_rules_by_type(rule_type: &str, rules: Vec<CollectionRule>) -> (r: Vec<
        CollectionRule,
    >)
        ensures
            r@ == rules@.filter(type_pred(rule_type@)),
    {
        let ghost orig = rules@;
        let ty = rule_type.to_owned();
        let mut rest = rules;
        let mut out: Vec<CollectionRule> = Vec::new();
        proof {
            assert(orig.subrange(0, 0).filter(type_pred(rule_type@)) =~= Seq::<CollectionRule>::empty()) by {
                reveal(Seq::filter);
            }
            assert(rest@ =~= orig.subrange(0, orig.len() as int));
        }
        while rest.len() > 0
            invariant
                ty@ == rule_type@,
                rest@.len() <= orig.len(),
                rest@ == orig.subrange(orig.len() - rest@.len(), orig.len() as int),
                out@ == orig.subrange(0, orig.len() - rest@.len()).filter(type_pred(rule_type@)),
            decreases rest@.len(),
        {
            let ghost k = orig.len() - rest@.len();
            let x = rest.remove(0);
            proof {
                assert(x == orig[k as int]);
            }
            let keep = rule_has_type(&x, &ty);
            proof {
                assert(keep == type_pred(rule_type@)(x));
            }
            if keep {
                out.push(x);
            }
            proof {
                assert(orig.subrange(0, k + 1) =~= orig.subrange(0, k as int) + seq![
                    orig[k as int],
                ]);
                lemma_filter_push(orig.subrange(0, k as int), orig[k as int], type_pred(rule_type@));
                assert(rest@ =~= orig.subrange(k + 1, orig.len() as int));
            }
        }
        proof {
            assert(orig.subrange(0, orig.len() as int) =~= orig);
        }
        out
    }

    /// The catalogue's rules of one platform and one declared type, in order.
    pub fn get_rules_by_platform_and_type(
        platform: &str,
        rule_type: &str,
        rules: Vec<CollectionRule>,
    ) -> (r: Vec<CollectionRule>)
        ensures
            r@ == rules@.filter(platform_type_pred(platform@, rule_type@)),
    {
        let ghost orig = rules@;
        let plat = platform.to_owned();
        let ty = rule_type.to_owned();
        let mut rest = rules;
        let mut out: Vec<CollectionRule> = Vec::new();
        proof {
            assert(orig.subrange(0, 0).filter(platform_type_pred(platform@, rule_type@)) =~= Seq::<CollectionRule>::empty()) by {
                reveal(Seq::filter);
            }
            assert(rest@ =~= orig.subrange(0, orig.len() as int));
        }
        while rest.len() > 0
            invariant
                plat@ == platform@,
                ty@ == rule_type@,
                rest@.len() <= orig.len(),
                rest@ == orig.subrange(orig.len() - rest@.len(), orig.len() as int),
                out@ == orig.subrange(0, orig.len() - rest@.len()).filter(platform_type_pred(platform@, rule_type@)),
            decreases rest@.len(),
        {
            let ghost k = orig.len() - rest@.len();
            let x = rest.remove(0);
            proof {
                assert(x == orig[k as int]);
            }
            let keep = rule_has_platform(&x, &plat) && rule_has_type(&x, &ty);
            proof {
                assert(keep == platform_type_pred(platform@, rule_type@)(x));
            }
            if keep {
                out.push(x);
            }
            proof {
                assert(orig.subrange(0, k + 1) =~= orig.subrange(0, k as int) + seq![
                    orig[k as int],
                ]);
                lemma_filter_push(orig.subrange(0, k as int), orig[k as int], platform_type_pred(platform@, rule_type@));
                assert(rest@ =~= orig.subrange(k + 1, orig.len() as int));
            }
        }
        proof {
            assert(orig.subrange(0, orig.len() as int) =~= orig);
        }
        out
    }
}

/// The law of the platform query: every rule it keeps carries that platform,
/// and the query is an idempotent filter — running it on its own result
/// changes nothing.
pub proof fn lemma_by_platform_law(rules: Seq<CollectionRule>, platform: Seq<char>)
    ensures
        forall|i: int|
            0 <= i < rules.filter(platform_pred(platform)).len() ==> rule_platform_spec(
                #[trigger] rules.filter(platform_pred(platform))[i],
            ) == platform,
        rules.filter(platform_pred(platform)).filter(platform_pred(platform)) == rules.filter(
            platform_pred(platform),
        ),
{
    broadcast use vstd::seq_lib::group_filter_ensures;

    let filtered = rules.filter(platform_pred(platform));
    assert(forall|i: int|
        0 <= i < filtered.len() ==> platform_pred(platform)(#[trigger] filtered[i]));
    lemma_filter_all(filtered, platform_pred(platform));
}

/// The combined query is the conjunction of the two single ones: filtering
/// by platform and then by type returns exactly what the platform-and-type
/// query returns.
pub proof fn lemma_platform_and_type_compose(
    rules: Seq<CollectionRule>,
    platform: Seq<char>,
    rule_type: Seq<char>,
)
    ensures
        rules.filter(platform_pred(platform)).filter(type_pred(rule_type)) == rules.filter(
            platform_type_pred(platform, rule_type),
        ),
    decreases rules.len(),
{
    reveal(Seq::filter);
    if rules.len() == 0 {
        assert(rules.filter(platform_pred(platform)).filter(type_pred(rule_type)) =~= rules.filter(
            platform_type_pred(platform, rule_type),
        ));
    } else {
        let prefix = rules.drop_last();
        let x = rules.last();
        lemma_platform_and_type_compose(prefix, platform, rule_type);
        assert(rules =~= prefix + seq![x]);
        lemma_filter_push(prefix, x, platform_pred(platform));
        lemma_filter_push(prefix, x, platform_type_pred(platform, rule_type));
        if platform_pred(platform)(x) {
            lemma_filter_push(prefix.filter(platform_pred(platform)), x, type_pred(rule_type));
            assert(prefix.filter(platform_pred(platform)).push(x) =~= prefix.filter(
                platform_pred(platform),
            ) + seq![x]);
        }
        assert(rules.filter(platform_pred(platform)).filter(type_pred(rule_type)) =~= rules.filter(
            platform_type_pred(platform, rule_type),
        ));
    }
}

/// The rule's name, for presentation and lookup.
pub fn get_rule_name(rule: &CollectionRule) -> (r: String)
    ensures
        r@ == rule_name_spec(*rule),
{
    match rule {
        CollectionRule::CommandRule(c) => c.name.clone(),
        CollectionRule::FileRule(f) => f.name.clone(),
        CollectionRule::MemoryRule(m) => m.name.clone(),
    }
}

/// The rule's platform, for presentation and platform filtering.
pub fn get_rule_platform(rule: &CollectionRule) -> (r: String)
    ensures
        r@ == rule_platform_spec(*rule),
{
    match rule {
        CollectionRule::CommandRule(c) => c.platform.clone(),
        CollectionRule::FileRule(f) => f.platform.clone(),
        CollectionRule::MemoryRule(m) => m.platform.clone(),
    }
}

} // verus!
