//! The collector facade: owns the file and memory collectors, the
//! encryption key, and the combined artefact list, and plans the archive.
//!
//! Writing the ZIP container is outside work; [`Collecter::prepare_archive`]
//! computes everything the writer needs — the deduplicated artefact list in
//! first-occurrence order and each entry's archive name — so that the
//! archive's contents are decided by verified code.

use vstd::prelude::*;
use crate::artefacts::{contains_string, dedup_artefacts, dedup_spec, views};
use crate::errors::CollectError;
use crate::file_collect::{
    as_file_rule, collect_all_spec, collect_by_rule_spec, file_projection, file_rule_pred,
    has_file_rule, FileCollecter, FsEntry,
};
use crate::memory_collect::{
    as_memory_rule, has_memory_rule, memory_projection, memory_rule_pred, MemoryCollecter,
};
use crate::paths::{entry_name_spec, zip_entry_name};
use crate::rules::{
    command_shape_text, file_shape_text, memory_shape_text, parses_to, rule_has_platform,
    rule_has_type, text_classifies, yaml_string_field, yaml_wellformed, CollectionRule, FileRule,
    MemoryRule,
};
use crate::artefacts::lemma_filter_push;

verus! {

/// One planned archive entry: where the bytes come from, what the entry is
/// called in the archive, and whether it is a memory dump.
#[derive(Debug, Clone, PartialEq)]
pub struct ArchiveEntry {
    pub source: String,
    pub entry_name: String,
    pub is_memory: bool,
}

/// The archive plan: the entries to write, in order, and the key that
/// encrypts every entry when present.
#[derive(Debug)]
pub struct ArchivePlan {
    pub encryption_key: Option<String>,
    pub entries: Vec<ArchiveEntry>,
}

/// Everything the collector would archive right now, in emission order:
/// artefacts already combined, then the file collector's paths, then the
/// memory dumps.
pub open spec fn combined_views(c: Collecter) -> Seq<Seq<char>> {
    views(c.artefacts@) + views(c.file.files@) + views(c.memory.memory_dumps@)
}

/// The collector facade.
pub struct Collecter {
    pub encryption_key: Option<String>,
    pub artefacts: Vec<String>,
    pub file: FileCollecter,
    pub memory: MemoryCollecter,
}

impl Collecter {
    /// Build the facade for one platform: the catalogue is partitioned in
    /// one pass into the file rules and the memory rules of that platform;
    /// the key is retained verbatim.
    pub fn new(platform: String, encryption_key: Option<String>, catalogue: Vec<CollectionRule>)
        -> (r: Result<Collecter, CollectError>)
        ensures
            r matches Ok(c) ==> {
                &&& c.encryption_key == encryption_key
                &&& c.artefacts@.len() == 0
                &&& c.file.platform == platform
                &&& c.file.rules@ == catalogue@.filter(file_rule_pred(platform@)).map_values(
                    file_projection(),
                )
                &&& c.file.files@.len() == 0
                &&& c.memory.platform == platform
                &&& c.memory.rules@ == catalogue@.filter(memory_rule_pred(platform@)).map_values(
                    memory_projection(),
                )
                &&& c.memory.memory_dumps@.len() == 0
            },
            r is Ok,
    {
        let ghost orig = catalogue@;
        let ty_file: String = "file".to_owned();
        let ty_memory: String = "memory".to_owned();
        let mut rest = catalogue;
        let mut file_rules: Vec<crate::rules::FileRule> = Vec::new();
        let mut memory_rules: Vec<crate::rules::MemoryRule> = Vec::new();
        proof {
            assert(orig.subrange(0, 0).filter(file_rule_pred(platform@)) =~= Seq::<
                CollectionRule,
            >::empty()) by {
                reveal(Seq::filter);
            }
            assert(orig.subrange(0, 0).filter(memory_rule_pred(platform@)) =~= Seq::<
                CollectionRule,
            >::empty()) by {
                reveal(Seq::filter);
            }
            assert(Seq::<CollectionRule>::empty().map_values(file_projection()) =~= Seq::<
                crate::rules::FileRule,
            >::empty());
            assert(Seq::<CollectionRule>::empty().map_values(memory_projection()) =~= Seq::<
                crate::rules::MemoryRule,
            >::empty());
            assert(rest@ =~= orig.subrange(0, orig.len() as int));
        }
        while rest.len() > 0
            invariant
                ty_file@ == "file"@,
                ty_memory@ == "memory"@,
                rest@.len() <= orig.len(),
                rest@ == orig.subrange(orig.len() - rest@.len(), orig.len() as int),
                file_rules@ == orig.subrange(0, orig.len() - rest@.len()).filter(
                    file_rule_pred(platform@),
                ).map_values(file_projection()),
                memory_rules@ == orig.subrange(0, orig.len() - rest@.len()).filter(
                    memory_rule_pred(platform@),
                ).map_values(memory_projection()),
            decreases rest@.len(),
        {
            let ghost k = orig.len() - rest@.len();
            let x = rest.remove(0);
            proof {
                assert(x == orig[k as int]);
            }
            let plat_ok = rule_has_platform(&x, &platform);
            let is_file_ty = rule_has_type(&x, &ty_file);
            let is_memory_ty = rule_has_type(&x, &ty_memory);
            let ghost prefix = orig.subrange(0, k as int);
            proof {
                lemma_filter_push(prefix, orig[k as int], file_rule_pred(platform@));
                lemma_filter_push(prefix, orig[k as int], memory_rule_pred(platform@));
            }
            match x {
                CollectionRule::FileRule(f) => {
                    if plat_ok && is_file_ty {
                        file_rules.push(f);
                        proof {
                            assert(file_rule_pred(platform@)(orig[k as int]));
                            assert(prefix.filter(file_rule_pred(platform@)).push(
                                orig[k as int],
                            ).map_values(file_projection()) =~= prefix.filter(
                                file_rule_pred(platform@),
                            ).map_values(file_projection()).push(as_file_rule(orig[k as int])));
                        }
                    } else {
                        proof {
                            assert(!(file_rule_pred(platform@)(orig[k as int])));
                        }
                    }
                    proof {
                        assert(!(memory_rule_pred(platform@)(orig[k as int])));
                    }
                },
                CollectionRule::MemoryRule(m) => {
                    if plat_ok && is_memory_ty {
                        memory_rules.push(m);
                        proof {
                            assert(memory_rule_pred(platform@)(orig[k as int]));
                            assert(prefix.filter(memory_rule_pred(platform@)).push(
                                orig[k as int],
                            ).map_values(memory_projection()) =~= prefix.filter(
                                memory_rule_pred(platform@),
                            ).map_values(memory_projection()).push(as_memory_rule(orig[k as int])));
                        }
                    } else {
                        proof {
                            assert(!(memory_rule_pred(platform@)(orig[k as int])));
                        }
                    }
                    proof {
                        assert(!(file_rule_pred(platform@)(orig[k as int])));
                    }
                },
                CollectionRule::CommandRule(_) => {
                    proof {
                        assert(!(file_rule_pred(platform@)(orig[k as int])));
                        assert(!(memory_rule_pred(platform@)(orig[k as int])));
                    }
                },
            }
            proof {
                assert(orig.subrange(0, k + 1) =~= prefix + seq![orig[k as int]]);
                assert(rest@ =~= orig.subrange(k + 1, orig.len() as int));
            }
        }
        proof {
            assert(orig.subrange(0, orig.len() as int) =~= orig);
        }
        let file = FileCollecter { platform: platform.clone(), rules: file_rules, files: Vec::new() };
        let memory = MemoryCollecter { platform, rules: memory_rules, memory_dumps: Vec::new() };
        Ok(Collecter { encryption_key, artefacts: Vec::new(), file, memory })
    }

    /// Dispatch one parsed rule to the collector of its kind: a file rule to
    /// the file collector, a memory rule to the memory collector; a command
    /// rule belongs to neither and is rejected.
    pub fn add_rule(&mut self, new_rule: CollectionRule) -> (r: Result<(), CollectError>)
        ensures
            final(self).encryption_key == old(self).encryption_key,
            final(self).artefacts == old(self).artefacts,
            final(self).file.platform == old(self).file.platform,
            final(self).file.files == old(self).file.files,
            final(self).memory.platform == old(self).memory.platform,
            final(self).memory.memory_dumps == old(self).memory.memory_dumps,
            new_rule is CommandRule ==> r == Err::<(), CollectError>(CollectError::RuleParseError)
                && final(self).file.rules == old(self).file.rules && final(self).memory.rules
                == old(self).memory.rules,
            new_rule matches CollectionRule::FileRule(f) ==> {
                &&& final(self).memory.rules == old(self).memory.rules
                &&& f.platform@ != old(self).file.platform@ ==> r == Err::<(), CollectError>(
                    CollectError::WrongPlatformRule,
                ) && final(self).file.rules == old(self).file.rules
                &&& (f.platform@ == old(self).file.platform@ && has_file_rule(
                    old(self).file.rules@,
                    f.name@,
                )) ==> r == Err::<(), CollectError>(CollectError::DuplicateRule)
                    && final(self).file.rules == old(self).file.rules
                &&& (f.platform@ == old(self).file.platform@ && !has_file_rule(
                    old(self).file.rules@,
                    f.name@,
                )) ==> r == Ok::<(), CollectError>(())
                    && final(self).file.rules@ == old(self).file.rules@.push(f)
            },
            new_rule matches CollectionRule::MemoryRule(m) ==> {
                &&& final(self).file.rules == old(self).file.rules
                &&& m.platform@ != old(self).memory.platform@ ==> r == Err::<(), CollectError>(
                    CollectError::WrongPlatformRule,
                ) && final(self).memory.rules == old(self).memory.rules
                &&& (m.platform@ == old(self).memory.platform@ && has_memory_rule(
                    old(self).memory.rules@,
                    m.name@,
                )) ==> r == Err::<(), CollectError>(CollectError::DuplicateRule)
                    && final(self).memory.rules == old(self).memory.rules
                &&& (m.platform@ == old(self).memory.platform@ && !has_memory_rule(
                    old(self).memory.rules@,
                    m.name@,
                )) ==> r == Ok::<(), CollectError>(())
                    && final(self).memory.rules@ == old(self).memory.rules@.push(m)
            },
    {
        match new_rule {
            CollectionRule::FileRule(f) => self.file.add_rule(CollectionRule::FileRule(f)),
            CollectionRule::MemoryRule(m) => self.memory.add_rule(CollectionRule::MemoryRule(m)),
            CollectionRule::CommandRule(_) => Err(CollectError::RuleParseError),
        }
    }

    /// Parse one YAML rule document and add it: a text parsing to a memory
    /// rule goes to the memory collector, one parsing to a file rule to the
    /// file collector, under their platform and duplicate checks; a text
    /// parsing to no rule, or to a command rule, is rejected with
    /// `RuleParseError` and changes nothing.
    pub fn add_rule_from_file(&mut self, contents: &str) -> (r: Result<(), CollectError>)
        ensures
            final(self).encryption_key == old(self).encryption_key,
            final(self).artefacts == old(self).artefacts,
            final(self).file.platform == old(self).file.platform,
            final(self).file.files == old(self).file.files,
            final(self).memory.platform == old(self).memory.platform,
            final(self).memory.memory_dumps == old(self).memory.memory_dumps,
            r is Err ==> final(self).file.rules == old(self).file.rules
                && final(self).memory.rules == old(self).memory.rules,
            !text_classifies(contents@) ==> r == Err::<(), CollectError>(
                CollectError::RuleParseError,
            ),
            (yaml_wellformed(contents@) && memory_shape_text(contents@)) ==> {
                let nm = yaml_string_field(contents@, "name"@).unwrap();
                let plat = yaml_string_field(contents@, "platform"@).unwrap();
                &&& final(self).file.rules == old(self).file.rules
                &&& plat != old(self).memory.platform@ ==> r == Err::<(), CollectError>(
                    CollectError::WrongPlatformRule,
                )
                &&& (plat == old(self).memory.platform@ && has_memory_rule(
                    old(self).memory.rules@,
                    nm,
                )) ==> r == Err::<(), CollectError>(CollectError::DuplicateRule)
                &&& (plat == old(self).memory.platform@ && !has_memory_rule(
                    old(self).memory.rules@,
                    nm,
                )) ==> r == Ok::<(), CollectError>(()) && (exists|m: MemoryRule|
                    #[trigger] parses_to(contents@, CollectionRule::MemoryRule(m))
                        && final(self).memory.rules@ == old(self).memory.rules@.push(m))
            },
            (yaml_wellformed(contents@) && !memory_shape_text(contents@) && file_shape_text(
                contents@,
            )) ==> {
                let nm = yaml_string_field(contents@, "name"@).unwrap();
                let plat = yaml_string_field(contents@, "platform"@).unwrap();
                &&& final(self).memory.rules == old(self).memory.rules
                &&& plat != old(self).file.platform@ ==> r == Err::<(), CollectError>(
                    CollectError::WrongPlatformRule,
                )
                &&& (plat == old(self).file.platform@ && has_file_rule(
                    old(self).file.rules@,
                    nm,
                )) ==> r == Err::<(), CollectError>(CollectError::DuplicateRule)
                &&& (plat == old(self).file.platform@ && !has_file_rule(
                    old(self).file.rules@,
                    nm,
                )) ==> r == Ok::<(), CollectError>(()) && (exists|f: FileRule|
                    #[trigger] parses_to(contents@, CollectionRule::FileRule(f))
                        && final(self).file.rules@ == old(self).file.rules@.push(f))
            },
            (yaml_wellformed(contents@) && !memory_shape_text(contents@) && !file_shape_text(
                contents@,
            ) && command_shape_text(contents@)) ==> r == Err::<(), CollectError>(
                CollectError::RuleParseError,
            ),
    {
        match CollectionRule::from_yaml_string(contents) {
            Ok(rule) => self.add_rule(rule),
            Err(e) => Err(e),
        }
    }

    /// Collect for one named rule: the file collector is tried first, the
    /// memory collector second, and a name neither knows fails with
    /// `RuleNotFound`. For a file rule, `present` and `entries` are the
    /// filesystem observations; for a memory rule, `dumps` holds the dump
    /// paths produced for the processes the rule selected.
    pub fn collect_by_rulename(
        &mut self,
        rule_name: &str,
        present: &Vec<String>,
        entries: &Vec<FsEntry>,
        dumps: Vec<String>,
    ) -> (r: Result<usize, CollectError>)
        ensures
            final(self).encryption_key == old(self).encryption_key,
            final(self).artefacts == old(self).artefacts,
            final(self).file.rules == old(self).file.rules,
            final(self).memory.rules == old(self).memory.rules,
            has_file_rule(old(self).file.rules@, rule_name@) ==> {
                &&& final(self).memory.memory_dumps == old(self).memory.memory_dumps
                &&& r is Ok
                &&& forall|j: int|
                    (0 <= j < old(self).file.rules@.len() && (#[trigger] old(
                        self,
                    ).file.rules@[j].name)@ == rule_name@ && (forall|k: int|
                        0 <= k < j ==> (#[trigger] old(self).file.rules@[k].name)@ != rule_name@))
                        ==> views(final(self).file.files@) == views(old(self).file.files@)
                        + collect_by_rule_spec(old(self).file.rules@[j], views(present@), entries@)
                        && r == Ok::<usize, CollectError>(
                        collect_by_rule_spec(
                            old(self).file.rules@[j],
                            views(present@),
                            entries@,
                        ).len() as usize,
                    )
            },
            (!has_file_rule(old(self).file.rules@, rule_name@) && has_memory_rule(
                old(self).memory.rules@,
                rule_name@,
            )) ==> {
                &&& final(self).file.files == old(self).file.files
                &&& final(self).memory.memory_dumps@ == old(self).memory.memory_dumps@ + dumps@
                &&& r == Ok::<usize, CollectError>(dumps@.len() as usize)
            },
            (!has_file_rule(old(self).file.rules@, rule_name@) && !has_memory_rule(
                old(self).memory.rules@,
                rule_name@,
            )) ==> {
                &&& final(self).file.files == old(self).file.files
                &&& final(self).memory.memory_dumps == old(self).memory.memory_dumps
                &&& r == Err::<usize, CollectError>(CollectError::RuleNotFound)
            },
    {
        match self.file.collect_by_rulename(rule_name, present, entries) {
            Ok(count) => Ok(count),
            Err(_) => self.memory.collect_by_rulename(rule_name, dumps),
        }
    }

    /// Collect for every loaded rule: all file rules in declaration order,
    /// then the memory dumps produced for the memory rules.
    pub fn collect_all(&mut self, present: &Vec<String>, entries: &Vec<FsEntry>, dumps: Vec<String>)
        -> (r: Result<(), CollectError>)
        ensures
            final(self).encryption_key == old(self).encryption_key,
            final(self).artefacts == old(self).artefacts,
            final(self).file.rules == old(self).file.rules,
            final(self).memory.rules == old(self).memory.rules,
            views(final(self).file.files@) == views(old(self).file.files@) + collect_all_spec(
                old(self).file.rules@,
                views(present@),
                entries@,
                old(self).file.rules@.len() as int,
            ),
            final(self).memory.memory_dumps@ == old(self).memory.memory_dumps@ + dumps@,
            r is Ok,
    {
        // The file collector cannot fail on observations already gathered;
        // its contract says so, and the result is consumed here.
        let file_result = self.file.collect_all(present, entries);
        proof {
            assert(file_result is Ok);
        }
        match file_result {
            Ok(()) => {},
            Err(_) => {},
        }
        let mut incoming = dumps;
        self.memory.memory_dumps.append(&mut incoming);
        Ok(())
    }

    /// Plan the archive. The file collector's paths and the memory dumps are
    /// folded into the artefact list, duplicates are dropped keeping first
    /// occurrences, and an empty plan fails with `NothingToCompress` —
    /// otherwise each artefact becomes one entry, named per the archive
    /// layout, with the retained key attached. The memory dumps stay
    /// recorded so that the cleanup at the end of the collection still
    /// knows them.
    pub fn prepare_archive(&mut self, windows: bool) -> (r: Result<ArchivePlan, CollectError>)
        ensures
            final(self).encryption_key == old(self).encryption_key,
            final(self).file.rules == old(self).file.rules,
            final(self).memory == old(self).memory,
            final(self).file.files@.len() == 0,
            views(final(self).artefacts@) == dedup_spec(combined_views(*old(self))),
            dedup_spec(combined_views(*old(self))).len() == 0 ==> r == Err::<
                ArchivePlan,
                CollectError,
            >(CollectError::NothingToCompress),
            dedup_spec(combined_views(*old(self))).len() > 0 ==> (r matches Ok(plan) && {
                &&& plan.encryption_key == old(self).encryption_key
                &&& views(plan.entries@.map_values(|e: ArchiveEntry| e.source)) == dedup_spec(
                    combined_views(*old(self)),
                )
                &&& forall|i: int|
                    0 <= i < plan.entries@.len() ==> {
                        &&& (#[trigger] plan.entries@[i]).is_memory == views(
                            old(self).memory.memory_dumps@,
                        ).contains(plan.entries@[i].source@)
                        &&& plan.entries@[i].entry_name@ == entry_name_spec(
                            plan.entries@[i].source@,
                            plan.entries@[i].is_memory,
                            windows,
                        )
                    }
            }),
    {
        let mut dumps = self.memory.get_memory_dumps();
        self.artefacts.append(&mut self.file.files);
        self.artefacts.append(&mut dumps);
        let deduped = dedup_artefacts(&self.artefacts);
        self.artefacts = deduped;
        proof {
            assert(views(old(self).artefacts@) + views(old(self).file.files@) + views(
                old(self).memory.memory_dumps@,
            ) =~= views(
                old(self).artefacts@ + old(self).file.files@ + old(self).memory.memory_dumps@,
            ));
        }
        if self.artefacts.len() == 0 {
            return Err(CollectError::NothingToCompress);
        }
        let key: Option<String> = match &self.encryption_key {
            Some(k) => Some(k.clone()),
            None => None,
        };
        let mut entries_out: Vec<ArchiveEntry> = Vec::new();
        let mut i: usize = 0;
        while i < self.artefacts.len()
            invariant
                self.encryption_key == old(self).encryption_key,
                self.file.rules == old(self).file.rules,
                self.file.files@.len() == 0,
                self.memory == old(self).memory,
                views(self.artefacts@) == dedup_spec(combined_views(*old(self))),
                i <= self.artefacts@.len(),
                entries_out@.len() == i,
                forall|k: int|
                    0 <= k < i ==> {
                        &&& (#[trigger] entries_out@[k]).source == self.artefacts@[k]
                        &&& entries_out@[k].is_memory == views(
                            old(self).memory.memory_dumps@,
                        ).contains(self.artefacts@[k]@)
                        &&& entries_out@[k].entry_name@ == entry_name_spec(
                            self.artefacts@[k]@,
                            entries_out@[k].is_memory,
                            windows,
                        )
                    },
            decreases self.artefacts@.len() - i,
        {
            let artefact = &self.artefacts[i];
            let is_memory = contains_string(&self.memory.memory_dumps, artefact);
            let entry_name = zip_entry_name(artefact.as_str(), is_memory, windows);
            entries_out.push(
                ArchiveEntry { source: artefact.clone(), entry_name, is_memory },
            );
            i = i + 1;
        }
        proof {
            assert(views(entries_out@.map_values(|e: ArchiveEntry| e.source)) =~= views(
                self.artefacts@,
            ));
        }
        Ok(ArchivePlan { encryption_key: key, entries: entries_out })
    }
}

} // verus!
