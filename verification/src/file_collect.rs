//! The file collector: turns file rules and filesystem observations into
//! artefact paths.
//!
//! Walking the filesystem and probing a literal path are outside work; this
//! module decides, for the observations handed in, which paths a rule
//! collects: the literal paths found present, and every walked entry that
//! some pattern of the rule matches.

use vstd::prelude::*;
use crate::artefacts::{contains_string, lemma_filter_push, views};
use crate::errors::CollectError;
use crate::matching::{re_verdict, regex_verdict};
use crate::paths::{
    drive_relative, drive_relative_spec, parse_stream, parse_stream_spec, strip_leading_separators,
    strip_separators_spec, windows_artefact, windows_artefact_spec,
};
use crate::rules::{rule_platform_spec, rule_type_spec, CollectionRule, FileRule};

verus! {

/// One non-directory entry a filesystem walk reported: its full path and
/// its base name.
#[derive(Debug, Clone, PartialEq)]
pub struct FsEntry {
    pub path: String,
    pub file_name: String,
}

/// One pattern matches the entry: as a regular expression against the full
/// path or against the base name.
pub open spec fn pattern_hits(pattern: Seq<char>, path: Seq<char>, name: Seq<char>) -> bool {
    re_verdict(pattern, path) == Some(true) || re_verdict(pattern, name) == Some(true)
}

/// Some pattern of the rule matches the entry.
pub open spec fn entry_matched(patterns: Seq<String>, path: Seq<char>, name: Seq<char>) -> bool {
    exists|i: int|
        0 <= i < patterns.len() && pattern_hits((#[trigger] patterns[i])@, path, name)
}

/// Keeps the walked entries some pattern matches.
pub open spec fn walk_pred(patterns: Seq<String>) -> spec_fn(FsEntry) -> bool {
    |e: FsEntry| entry_matched(patterns, e.path@, e.file_name@)
}

/// A walked entry's path.
pub open spec fn entry_path_view() -> spec_fn(FsEntry) -> Seq<char> {
    |e: FsEntry| e.path@
}

/// The paths of the walked entries that some pattern of the rule matches,
/// in walk order.
pub open spec fn walk_matches(patterns: Seq<String>, entries: Seq<FsEntry>) -> Seq<Seq<char>> {
    entries.filter(walk_pred(patterns)).map_values(entry_path_view())
}

/// What one round of a rule emits, for the pattern at index `i`: the pattern
/// itself when the literal probe found it present, then every matched walk
/// entry.
pub open spec fn round_spec(
    paths: Seq<String>,
    i: int,
    present: Seq<Seq<char>>,
    entries: Seq<FsEntry>,
) -> Seq<Seq<char>> {
    (if present.contains(paths[i]@) {
        seq![paths[i]@]
    } else {
        Seq::<Seq<char>>::empty()
    }) + walk_matches(paths, entries)
}

/// What the first `n` rounds of a rule emit, concatenated in order.
pub open spec fn collect_rounds(
    paths: Seq<String>,
    present: Seq<Seq<char>>,
    entries: Seq<FsEntry>,
    n: int,
) -> Seq<Seq<char>>
    decreases n,
{
    if n <= 0 {
        Seq::<Seq<char>>::empty()
    } else {
        collect_rounds(paths, present, entries, n - 1) + round_spec(paths, n - 1, present, entries)
    }
}

/// Everything one rule collects from the given observations.
pub open spec fn collect_by_rule_spec(
    rule: FileRule,
    present: Seq<Seq<char>>,
    entries: Seq<FsEntry>,
) -> Seq<Seq<char>> {
    collect_rounds(rule.paths@, present, entries, rule.paths@.len() as int)
}

/// What a whole rule list collects, rule by rule in declaration order.
pub open spec fn collect_all_spec(
    rules: Seq<FileRule>,
    present: Seq<Seq<char>>,
    entries: Seq<FsEntry>,
    n: int,
) -> Seq<Seq<char>>
    decreases n,
{
    if n <= 0 {
        Seq::<Seq<char>>::empty()
    } else {
        collect_all_spec(rules, present, entries, n - 1) + collect_by_rule_spec(
            rules[n - 1],
            present,
            entries,
        )
    }
}

/// Keeps the catalogue rules that belong to this collector: file rules of
/// one platform, declared as such.
pub open spec fn file_rule_pred(platform: Seq<char>) -> spec_fn(CollectionRule) -> bool {
    |x: CollectionRule| rule_platform_spec(x) == platform && rule_type_spec(x) == "file"@
        && x is FileRule
}

/// The file rule inside a catalogue rule known to carry one.
pub open spec fn as_file_rule(x: CollectionRule) -> FileRule {
    match x {
        CollectionRule::FileRule(f) => f,
        _ => vstd::pervasive::arbitrary(),
    }
}

/// The projection from catalogue rules to their file rules.
pub open spec fn file_projection() -> spec_fn(CollectionRule) -> FileRule {
    |x: CollectionRule| as_file_rule(x)
}

/// A rule of this name is loaded.
pub open spec fn has_file_rule(rules: Seq<FileRule>, name: Seq<char>) -> bool {
    exists|i: int| 0 <= i < rules.len() && (#[trigger] rules[i].name)@ == name
}

/// One pattern's file part — its stream suffix split off — matches the
/// entry's full path or base name.
pub open spec fn win_pattern_hits(pattern: Seq<char>, path: Seq<char>, name: Seq<char>) -> bool {
    pattern_hits(parse_stream_spec(pattern).0, path, name)
}

/// What a Windows walk match emits for an entry: the entry's path, suffixed
/// with the matching pattern's stream when the pattern carries one.
pub open spec fn win_emitted(pattern: Seq<char>, path: Seq<char>) -> Seq<char> {
    if parse_stream_spec(pattern).1.len() == 0 {
        path
    } else {
        path + seq![':'] + parse_stream_spec(pattern).1
    }
}

/// Hold every pattern of a rule against one walked entry the Windows way:
/// each pattern's stream suffix is split off before matching, the first
/// matching pattern decides, and its stream is re-appended to the emitted
/// path.
pub fn match_walk_entry_windows(patterns: &Vec<String>, entry_path: &str, entry_name: &str) -> (r:
    Option<String>)
    ensures
        r is Some <==> exists|i: int|
            0 <= i < patterns@.len() && win_pattern_hits(
                (#[trigger] patterns@[i])@,
                entry_path@,
                entry_name@,
            ),
        forall|i: int|
            (0 <= i < patterns@.len() && win_pattern_hits(
                (#[trigger] patterns@[i])@,
                entry_path@,
                entry_name@,
            ) && (forall|k: int|
                0 <= k < i ==> !win_pattern_hits(
                    (#[trigger] patterns@[k])@,
                    entry_path@,
                    entry_name@,
                ))) ==> (r matches Some(s) && s@ == win_emitted(patterns@[i]@, entry_path@)),
{
    let mut i: usize = 0;
    while i < patterns.len()
        invariant
            i <= patterns@.len(),
            forall|k: int|
                0 <= k < i ==> !win_pattern_hits(
                    (#[trigger] patterns@[k])@,
                    entry_path@,
                    entry_name@,
                ),
        decreases patterns@.len() - i,
    {
        let (file_part, stream) = parse_stream(patterns[i].as_str());
        let hit = match regex_verdict(file_part.as_str(), entry_path) {
            Some(true) => true,
            _ => match regex_verdict(file_part.as_str(), entry_name) {
                Some(true) => true,
                _ => false,
            },
        };
        if hit {
            if stream.as_str().unicode_len() == 0 {
                return Some(entry_path.to_owned());
            } else {
                let mut out = entry_path.to_owned();
                out.append(":");
                out.append(stream.as_str());
                proof {
                    reveal_strlit(":");
                    assert(":"@ =~= seq![':']);
                }
                return Some(out);
            }
        }
        i = i + 1;
    }
    None
}

/// The artefact one found literal yields: the probe's drive, the pattern's
/// drive-relative file part, and the pattern's stream.
pub open spec fn literal_artefact_spec(drive: Seq<char>, pattern: Seq<char>) -> Seq<char> {
    windows_artefact_spec(
        drive,
        strip_separators_spec(drive_relative_spec(parse_stream_spec(pattern).0)),
        parse_stream_spec(pattern).1,
    )
}

/// One drive's literal emissions for the first `n` rule paths, in order.
pub open spec fn literal_round_spec(
    drive: Seq<char>,
    found_row: Seq<bool>,
    paths: Seq<String>,
    n: int,
) -> Seq<Seq<char>>
    decreases n,
{
    if n <= 0 {
        Seq::<Seq<char>>::empty()
    } else {
        literal_round_spec(drive, found_row, paths, n - 1) + (if found_row[n - 1] {
            seq![literal_artefact_spec(drive, paths[n - 1]@)]
        } else {
            Seq::<Seq<char>>::empty()
        })
    }
}

/// The literal emissions of the first `m` drives, drive by drive.
pub open spec fn windows_literals_spec(
    drives: Seq<String>,
    found: Seq<Vec<bool>>,
    paths: Seq<String>,
    m: int,
) -> Seq<Seq<char>>
    decreases m,
{
    if m <= 0 {
        Seq::<Seq<char>>::empty()
    } else {
        windows_literals_spec(drives, found, paths, m - 1) + literal_round_spec(
            drives[m - 1]@,
            found[m - 1]@,
            paths,
            paths.len() as int,
        )
    }
}

/// The literal-probe artefacts of one rule across the host's drives:
/// `found[i][j]` says whether the probe resolved rule path `j`'s
/// drive-relative file part on drive `i`, and each hit yields one artefact
/// naming the drive, the relative path, and the pattern's stream.
pub fn windows_literal_artefacts(
    drives: &Vec<String>,
    found: &Vec<Vec<bool>>,
    paths: &Vec<String>,
) -> (r: Vec<String>)
    requires
        found@.len() == drives@.len(),
        forall|i: int| 0 <= i < found@.len() ==> (#[trigger] found@[i])@.len() == paths@.len(),
    ensures
        views(r@) == windows_literals_spec(drives@, found@, paths@, drives@.len() as int),
{
    let mut out: Vec<String> = Vec::new();
    let mut i: usize = 0;
    proof {
        assert(views(out@) =~= windows_literals_spec(drives@, found@, paths@, 0));
    }
    while i < drives.len()
        invariant
            i <= drives@.len(),
            found@.len() == drives@.len(),
            forall|k: int| 0 <= k < found@.len() ==> (#[trigger] found@[k])@.len() == paths@.len(),
            views(out@) == windows_literals_spec(drives@, found@, paths@, i as int),
        decreases drives@.len() - i,
    {
        let ghost done = windows_literals_spec(drives@, found@, paths@, i as int);
        let mut j: usize = 0;
        while j < paths.len()
            invariant
                0 <= i < drives@.len(),
                j <= paths@.len(),
                found@.len() == drives@.len(),
                forall|k: int|
                    0 <= k < found@.len() ==> (#[trigger] found@[k])@.len() == paths@.len(),
                done == windows_literals_spec(drives@, found@, paths@, i as int),
                views(out@) == done + literal_round_spec(
                    drives@[i as int]@,
                    found@[i as int]@,
                    paths@,
                    j as int,
                ),
            decreases paths@.len() - j,
        {
            let ghost out_before = out@;
            if found[i][j] {
                let (file_part, stream) = parse_stream(paths[j].as_str());
                let rel = drive_relative(file_part.as_str());
                let rel = strip_leading_separators(rel.as_str());
                let artefact = windows_artefact(drives[i].as_str(), rel.as_str(), stream.as_str());
                out.push(artefact);
                proof {
                    assert(views(out@) =~= views(out_before).push(
                        literal_artefact_spec(drives@[i as int]@, paths@[j as int]@),
                    ));
                }
            }
            j = j + 1;
        }
        proof {
            assert(views(out@) =~= windows_literals_spec(drives@, found@, paths@, i + 1));
        }
        i = i + 1;
    }
    out
}

/// How many workers a parallel walk may spawn: the host's parallelism,
/// capped at twelve.
pub fn walker_threads(available: usize) -> (r: usize)
    ensures
        r == (if available < 12 {
            available as int
        } else {
            12
        }),
{
    if available < 12 {
        available
    } else {
        12
    }
}

/// Hold every pattern of a rule against one walked entry.
pub fn walk_entry_match(patterns: &Vec<String>, entry_path: &str, entry_name: &str) -> (r: bool)
    ensures
        r == entry_matched(patterns@, entry_path@, entry_name@),
{
    let mut i: usize = 0;
    while i < patterns.len()
        invariant
            i <= patterns@.len(),
            forall|k: int|
                0 <= k < i ==> !pattern_hits((#[trigger] patterns@[k])@, entry_path@, entry_name@),
        decreases patterns@.len() - i,
    {
        let hit_path = regex_verdict(patterns[i].as_str(), entry_path);
        let hit = match hit_path {
            Some(true) => true,
            _ => match regex_verdict(patterns[i].as_str(), entry_name) {
                Some(true) => true,
                _ => false,
            },
        };
        if hit {
            return true;
        }
        i = i + 1;
    }
    false
}

/// The rule asks for a whole-filesystem walk: its first pattern begins with
/// `**`.
pub open spec fn wants_full_walk(rule: FileRule) -> bool {
    rule.paths@.len() > 0 && rule.paths@[0]@.len() >= 2 && rule.paths@[0]@[0] == '*'
        && rule.paths@[0]@[1] == '*'
}

/// The roots a whole-filesystem walk must skip: the virtual filesystems.
/// Empty for a rule whose first pattern does not begin with `**`.
pub fn linux_ignored_roots(rule: &FileRule) -> (r: Vec<String>)
    ensures
        wants_full_walk(*rule) ==> views(r@) == seq!["/proc"@, "/dev"@, "/sys"@],
        !wants_full_walk(*rule) ==> r@.len() == 0,
{
    let full = if rule.paths.len() > 0 {
        let first = &rule.paths[0];
        let n = first.as_str().unicode_len();
        n >= 2 && first.as_str().get_char(0) == '*' && first.as_str().get_char(1) == '*'
    } else {
        false
    };
    let mut out: Vec<String> = Vec::new();
    if full {
        out.push("/proc".to_owned());
        out.push("/dev".to_owned());
        out.push("/sys".to_owned());
        proof {
            assert(views(out@) =~= seq!["/proc"@, "/dev"@, "/sys"@]);
        }
    }
    out
}

/// The file collector: its platform, its loaded rules, and the artefact
/// paths collected so far.
pub struct FileCollecter {
    pub platform: String,
    pub rules: Vec<FileRule>,
    pub files: Vec<String>,
}

impl FileCollecter {
    /// Build the collector for one platform from a parsed catalogue: it
    /// keeps exactly the file rules declared for that platform, in catalogue
    /// order, and starts with no files.
    pub fn new(platform: String, catalogue: Vec<CollectionRule>) -> (r: Result<
        FileCollecter,
        CollectError,
    >)
        ensures
            r matches Ok(c) ==> {
                &&& c.platform == platform
                &&& c.rules@ == catalogue@.filter(file_rule_pred(platform@)).map_values(
                    file_projection(),
                )
                &&& c.files@.len() == 0
            },
            r is Ok,
    {
        let ghost orig = catalogue@;
        let ty: String = "file".to_owned();
        let mut rest = catalogue;
        let mut out: Vec<FileRule> = Vec::new();
        proof {
            assert(orig.subrange(0, 0).filter(file_rule_pred(platform@)) =~= Seq::<
                CollectionRule,
            >::empty()) by {
                reveal(Seq::filter);
            }
            assert(Seq::<CollectionRule>::empty().map_values(file_projection()) =~= Seq::<
                FileRule,
            >::empty());
            assert(rest@ =~= orig.subrange(0, orig.len() as int));
        }
        while rest.len() > 0
            invariant
                ty@ == "file"@,
                rest@.len() <= orig.len(),
                rest@ == orig.subrange(orig.len() - rest@.len(), orig.len() as int),
                out@ == orig.subrange(0, orig.len() - rest@.len()).filter(
                    file_rule_pred(platform@),
                ).map_values(file_projection()),
            decreases rest@.len(),
        {
            let ghost k = orig.len() - rest@.len();
            let x = rest.remove(0);
            proof {
                assert(x == orig[k as int]);
            }
            let keep = crate::rules::rule_has_platform(&x, &platform) && crate::rules::rule_has_type(
                &x,
                &ty,
            );
            let ghost prefix = orig.subrange(0, k as int);
            if keep {
                match x {
                    CollectionRule::FileRule(f) => {
                        out.push(f);
                        proof {
                            assert(file_rule_pred(platform@)(orig[k as int]));
                            lemma_filter_push(prefix, orig[k as int], file_rule_pred(platform@));
                            assert(prefix.filter(file_rule_pred(platform@)).push(
                                orig[k as int],
                            ).map_values(file_projection()) =~= prefix.filter(
                                file_rule_pred(platform@),
                            ).map_values(file_projection()).push(as_file_rule(orig[k as int])));
                        }
                    },
                    _ => {
                        proof {
                            assert(!(file_rule_pred(platform@)(orig[k as int])));
                            lemma_filter_push(prefix, orig[k as int], file_rule_pred(platform@));
                        }
                    },
                }
            } else {
                proof {
                    assert(!(file_rule_pred(platform@)(orig[k as int])));
                    lemma_filter_push(prefix, orig[k as int], file_rule_pred(platform@));
                }
            }
            proof {
                assert(orig.subrange(0, k + 1) =~= prefix + seq![orig[k as int]]);
                assert(rest@ =~= orig.subrange(k + 1, orig.len() as int));
            }
        }
        proof {
            assert(orig.subrange(0, orig.len() as int) =~= orig);
        }
        Ok(FileCollecter { platform, rules: out, files: Vec::new() })
    }

    /// Add one rule. Rejected when it is not a file rule, when its platform
    /// is not this collector's, or when a rule of the same name is already
    /// loaded; otherwise it is appended.
    pub fn add_rule(&mut self, new_rule: CollectionRule) -> (r: Result<(), CollectError>)
        ensures
            final(self).platform == old(self).platform,
            final(self).files == old(self).files,
            !(new_rule is FileRule) ==> r == Err::<(), CollectError>(CollectError::RuleParseError)
                && final(self).rules == old(self).rules,
            new_rule matches CollectionRule::FileRule(f) ==> {
                &&& f.platform@ != old(self).platform@ ==> r == Err::<(), CollectError>(
                    CollectError::WrongPlatformRule,
                ) && final(self).rules == old(self).rules
                &&& (f.platform@ == old(self).platform@ && has_file_rule(
                    old(self).rules@,
                    f.name@,
                )) ==> r == Err::<(), CollectError>(CollectError::DuplicateRule)
                    && final(self).rules == old(self).rules
                &&& (f.platform@ == old(self).platform@ && !has_file_rule(
                    old(self).rules@,
                    f.name@,
                )) ==> r == Ok::<(), CollectError>(())
                    && final(self).rules@ == old(self).rules@.push(f)
            },
    {
        match new_rule {
            CollectionRule::FileRule(f) => {
                if !(f.platform == self.platform) {
                    return Err(CollectError::WrongPlatformRule);
                }
                let mut i: usize = 0;
                while i < self.rules.len()
                    invariant
                        i <= self.rules@.len(),
                        self == old(self),
                        new_rule == CollectionRule::FileRule(f),
                        f.platform@ == self.platform@,
                        forall|k: int|
                            0 <= k < i ==> (#[trigger] self.rules@[k].name)@ != f.name@,
                    decreases self.rules@.len() - i,
                {
                    if self.rules[i].name == f.name {
                        return Err(CollectError::DuplicateRule);
                    }
                    i = i + 1;
                }
                self.rules.push(f);
                Ok(())
            },
            _ => Err(CollectError::RuleParseError),
        }
    }

    /// Everything one rule collects from the given observations: for each
    /// pattern, the pattern itself when the literal probe found it present,
    /// then the path of every walked entry that some pattern of the rule
    /// matches.
    pub fn collect_by_rule(rule: &FileRule, present: &Vec<String>, entries: &Vec<FsEntry>) -> (r:
        Vec<String>)
        ensures
            views(r@) == collect_by_rule_spec(*rule, views(present@), entries@),
    {
        let mut out: Vec<String> = Vec::new();
        let mut i: usize = 0;
        proof {
            assert(views(out@) =~= collect_rounds(rule.paths@, views(present@), entries@, 0));
        }
        while i < rule.paths.len()
            invariant
                i <= rule.paths@.len(),
                views(out@) == collect_rounds(rule.paths@, views(present@), entries@, i as int),
            decreases rule.paths@.len() - i,
        {
            let ghost done = collect_rounds(rule.paths@, views(present@), entries@, i as int);
            let ghost lit = (if views(present@).contains(rule.paths@[i as int]@) {
                seq![rule.paths@[i as int]@]
            } else {
                Seq::<Seq<char>>::empty()
            });
            if contains_string(present, &rule.paths[i]) {
                out.push(rule.paths[i].clone());
            }
            proof {
                assert(views(out@) =~= done + lit);
            }
            let mut j: usize = 0;
            while j < entries.len()
                invariant
                    0 <= i < rule.paths@.len(),
                    j <= entries@.len(),
                    done == collect_rounds(rule.paths@, views(present@), entries@, i as int),
                    lit == (if views(present@).contains(rule.paths@[i as int]@) {
                        seq![rule.paths@[i as int]@]
                    } else {
                        Seq::<Seq<char>>::empty()
                    }),
                    views(out@) == done + lit + walk_matches(
                        rule.paths@,
                        entries@.subrange(0, j as int),
                    ),
                decreases entries@.len() - j,
            {
                let ghost prefix = entries@.subrange(0, j as int);
                proof {
                    assert(prefix.filter(walk_pred(rule.paths@)) =~= entries@.subrange(
                        0,
                        j as int,
                    ).filter(walk_pred(rule.paths@)));
                }
                let e = &entries[j];
                let ghost out_before = out@;
                if walk_entry_match(&rule.paths, e.path.as_str(), e.file_name.as_str()) {
                    out.push(e.path.clone());
                    proof {
                        assert(walk_pred(rule.paths@)(entries@[j as int]));
                        assert(views(out@) =~= views(out_before).push(entries@[j as int].path@));
                    }
                } else {
                    proof {
                        assert(!(walk_pred(rule.paths@)(entries@[j as int])));
                    }
                }
                proof {
                    assert(entries@.subrange(0, j + 1) =~= prefix + seq![entries@[j as int]]);
                    lemma_filter_push(prefix, entries@[j as int], walk_pred(rule.paths@));
                    if walk_pred(rule.paths@)(entries@[j as int]) {
                        assert(prefix.filter(walk_pred(rule.paths@)).push(
                            entries@[j as int],
                        ).map_values(entry_path_view()) =~= walk_matches(rule.paths@, prefix).push(
                            entries@[j as int].path@,
                        ));
                    }
                    assert(views(out@) =~= done + lit + walk_matches(
                        rule.paths@,
                        entries@.subrange(0, j + 1),
                    ));
                }
                j = j + 1;
            }
            proof {
                assert(entries@.subrange(0, entries@.len() as int) =~= entries@);
                assert(views(out@) =~= collect_rounds(
                    rule.paths@,
                    views(present@),
                    entries@,
                    i + 1,
                ));
            }
            i = i + 1;
        }
        out
    }

    /// Collect for the named rule and append what it yields to the
    /// collector's files, reporting how many paths it yielded. Fails with
    /// `RuleNotFound` exactly when no loaded rule has the name; the first
    /// rule of the name decides.
    pub fn collect_by_rulename(
        &mut self,
        rule_name: &str,
        present: &Vec<String>,
        entries: &Vec<FsEntry>,
    ) -> (r: Result<usize, CollectError>)
        ensures
            final(self).platform == old(self).platform,
            final(self).rules == old(self).rules,
            r is Ok <==> has_file_rule(old(self).rules@, rule_name@),
            !has_file_rule(old(self).rules@, rule_name@) ==> r == Err::<usize, CollectError>(
                CollectError::RuleNotFound,
            ) && final(self).files == old(self).files,
            forall|j: int|
                (0 <= j < old(self).rules@.len() && (#[trigger] old(self).rules@[j].name)@
                    == rule_name@ && (forall|k: int|
                    0 <= k < j ==> (#[trigger] old(self).rules@[k].name)@ != rule_name@)) ==> {
                    &&& views(final(self).files@) == views(old(self).files@)
                        + collect_by_rule_spec(old(self).rules@[j], views(present@), entries@)
                    &&& r == Ok::<usize, CollectError>(
                        collect_by_rule_spec(
                            old(self).rules@[j],
                            views(present@),
                            entries@,
                        ).len() as usize,
                    )
                },
    {
        let wanted = rule_name.to_owned();
        let mut i: usize = 0;
        while i < self.rules.len()
            invariant
                wanted@ == rule_name@,
                i <= self.rules@.len(),
                self == old(self),
                forall|k: int| 0 <= k < i ==> (#[trigger] self.rules@[k].name)@ != rule_name@,
            decreases self.rules@.len() - i,
        {
            if self.rules[i].name == wanted {
                let mut collected = Self::collect_by_rule(&self.rules[i], present, entries);
                let count = collected.len();
                proof {
                    assert(views(self.files@ + collected@) =~= views(self.files@) + views(
                        collected@,
                    ));
                }
                self.files.append(&mut collected);
                return Ok(count);
            }
            i = i + 1;
        }
        Err(CollectError::RuleNotFound)
    }

    /// Collect for every loaded rule, in declaration order, appending all
    /// yielded paths to the collector's files.
    pub fn collect_all(&mut self, present: &Vec<String>, entries: &Vec<FsEntry>) -> (r: Result<
        (),
        CollectError,
    >)
        ensures
            final(self).platform == old(self).platform,
            final(self).rules == old(self).rules,
            views(final(self).files@) == views(old(self).files@) + collect_all_spec(
                old(self).rules@,
                views(present@),
                entries@,
                old(self).rules@.len() as int,
            ),
            r is Ok,
    {
        let mut i: usize = 0;
        proof {
            assert(views(self.files@) =~= views(old(self).files@) + collect_all_spec(
                old(self).rules@,
                views(present@),
                entries@,
                0,
            ));
        }
        while i < self.rules.len()
            invariant
                i <= self.rules@.len(),
                self.platform == old(self).platform,
                self.rules == old(self).rules,
                views(self.files@) == views(old(self).files@) + collect_all_spec(
                    old(self).rules@,
                    views(present@),
                    entries@,
                    i as int,
                ),
            decreases self.rules@.len() - i,
        {
            let mut collected = Self::collect_by_rule(&self.rules[i], present, entries);
            proof {
                assert(views(self.files@ + collected@) =~= views(self.files@) + views(collected@));
            }
            self.files.append(&mut collected);
            i = i + 1;
        }
        Ok(())
    }
}

} // verus!
