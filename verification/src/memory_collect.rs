//! The memory collector: selects running processes by rule and tracks the
//! minidump files produced for them.
//!
//! Enumerating processes and writing a dump are outside work; this module
//! decides which processes a rule selects and records the dump paths, so
//! that the decisions are checked for every process list the host reports.

use vstd::prelude::*;
use crate::errors::CollectError;
use crate::matching::{match_name_pattern, name_pattern_matches};
use crate::rules::{rule_platform_spec, rule_type_spec, CollectionRule, MemoryRule};
use crate::artefacts::lemma_filter_push;

verus! {

/// A running process: its image name and identifier.
#[derive(Debug, Clone, PartialEq)]
pub struct Process {
    pub name: String,
    pub pid: u32,
}

/// The rule selects the process: some entry of `process_names` matches its
/// name, or its PID is listed in `pids`.
pub open spec fn process_selected(rule: MemoryRule, name: Seq<char>, pid: u32) -> bool {
    (exists|i: int|
        0 <= i < rule.process_names@.len() && name_pattern_matches(
            (#[trigger] rule.process_names@[i])@,
            name,
        )) || rule.pids@.contains(pid)
}

/// Keeps the processes one memory rule selects.
pub open spec fn selected_pred(rule: MemoryRule) -> spec_fn(Process) -> bool {
    |p: Process| process_selected(rule, p.name@, p.pid)
}

/// Keeps the catalogue rules that belong to this collector: memory rules of
/// one platform, declared as such.
pub open spec fn memory_rule_pred(platform: Seq<char>) -> spec_fn(CollectionRule) -> bool {
    |x: CollectionRule| rule_platform_spec(x) == platform && rule_type_spec(x) == "memory"@
        && x is MemoryRule
}

/// The memory rule inside a catalogue rule known to carry one.
pub open spec fn as_memory_rule(x: CollectionRule) -> MemoryRule {
    match x {
        CollectionRule::MemoryRule(m) => m,
        _ => vstd::pervasive::arbitrary(),
    }
}

/// The projection from catalogue rules to their memory rules.
pub open spec fn memory_projection() -> spec_fn(CollectionRule) -> MemoryRule {
    |x: CollectionRule| as_memory_rule(x)
}

/// A rule of this name is loaded.
pub open spec fn has_memory_rule(rules: Seq<MemoryRule>, name: Seq<char>) -> bool {
    exists|i: int| 0 <= i < rules.len() && (#[trigger] rules[i].name)@ == name
}

/// Decide whether one process is selected by one memory rule.
pub fn process_matches_rule(rule: &MemoryRule, process: &Process) -> (r: bool)
    ensures
        r == process_selected(*rule, process.name@, process.pid),
{
    let mut i: usize = 0;
    while i < rule.process_names.len()
        invariant
            i <= rule.process_names@.len(),
            forall|k: int|
                0 <= k < i ==> !name_pattern_matches(
                    (#[trigger] rule.process_names@[k])@,
                    process.name@,
                ),
        decreases rule.process_names@.len() - i,
    {
        if match_name_pattern(rule.process_names[i].as_str(), process.name.as_str()) {
            return true;
        }
        i = i + 1;
    }
    let mut j: usize = 0;
    while j < rule.pids.len()
        invariant
            j <= rule.pids@.len(),
            forall|k: int| 0 <= k < j ==> (#[trigger] rule.pids@[k]) != process.pid,
        decreases rule.pids@.len() - j,
    {
        if rule.pids[j] == process.pid {
            return true;
        }
        j = j + 1;
    }
    false
}

/// The memory collector: its platform, its loaded rules, and the dump files
/// recorded so far. The dump files must be removed from disk when the
/// collection ends; the list here is what that cleanup walks.
pub struct MemoryCollecter {
    pub platform: String,
    pub rules: Vec<MemoryRule>,
    pub memory_dumps: Vec<String>,
}

impl MemoryCollecter {
    /// Build the collector for one platform from a parsed catalogue: it
    /// keeps exactly the memory rules declared for that platform, in
    /// catalogue order, and starts with no dumps.
    pub fn new(platform: String, catalogue: Vec<CollectionRule>) -> (r: Result<
        MemoryCollecter,
        CollectError,
    >)
        ensures
            r matches Ok(c) ==> {
                &&& c.platform == platform
                &&& c.rules@ == catalogue@.filter(memory_rule_pred(platform@)).map_values(memory_projection())
                &&& c.memory_dumps@.len() == 0
            },
            r is Ok,
    {
        let ghost orig = catalogue@;
        let ty: String = "memory".to_owned();
        let mut rest = catalogue;
        let mut out: Vec<MemoryRule> = Vec::new();
        proof {
            assert(orig.subrange(0, 0).filter(memory_rule_pred(platform@)) =~= Seq::<
                CollectionRule,
            >::empty()) by {
                reveal(Seq::filter);
            }
            assert(Seq::<CollectionRule>::empty().map_values(memory_projection()) =~= Seq::<
                MemoryRule,
            >::empty());
            assert(rest@ =~= orig.subrange(0, orig.len() as int));
        }
        while rest.len() > 0
            invariant
                ty@ == "memory"@,
                rest@.len() <= orig.len(),
                rest@ == orig.subrange(orig.len() - rest@.len(), orig.len() as int),
                out@ == orig.subrange(0, orig.len() - rest@.len()).filter(
                    memory_rule_pred(platform@),
                ).map_values(memory_projection()),
            decreases rest@.len(),
        {
            let ghost k = orig.len() - rest@.len();
            let x = rest.remove(0);
            proof {
                assert(x == orig[k as int]);
            }
            let keep = crate::rules::rule_has_platform(&x, &platform) && crate::rules::rule_has_type(
                &x,
                &ty,
            );
            let ghost prefix = orig.subrange(0, k as int);
            if keep {
                match x {
                    CollectionRule::MemoryRule(m) => {
                        out.push(m);
                        proof {
                            assert(memory_rule_pred(platform@)(orig[k as int]));
                            lemma_filter_push(prefix, orig[k as int], memory_rule_pred(platform@));
                            assert(prefix.filter(memory_rule_pred(platform@)).push(
                                orig[k as int],
                            ).map_values(memory_projection()) =~= prefix.filter(
                                memory_rule_pred(platform@),
                            ).map_values(memory_projection()).push(as_memory_rule(orig[k as int])));
                        }
                    },
                    _ => {
                        proof {
                            assert(!(memory_rule_pred(platform@)(orig[k as int])));
                            lemma_filter_push(prefix, orig[k as int], memory_rule_pred(platform@));
                        }
                    },
                }
            } else {
                proof {
                    assert(!(memory_rule_pred(platform@)(orig[k as int])));
                    lemma_filter_push(prefix, orig[k as int], memory_rule_pred(platform@));
                }
            }
            proof {
                assert(orig.subrange(0, k + 1) =~= prefix + seq![orig[k as int]]);
                assert(rest@ =~= orig.subrange(k + 1, orig.len() as int));
            }
        }
        proof {
            assert(orig.subrange(0, orig.len() as int) =~= orig);
        }
        Ok(MemoryCollecter { platform, rules: out, memory_dumps: Vec::new() })
    }

    /// The dump paths recorded so far, as their own list.
    pub fn get_memory_dumps(&self) -> (r: Vec<String>)
        ensures
            r@ == self.memory_dumps@,
    {
        let mut out: Vec<String> = Vec::new();
        let mut i: usize = 0;
        while i < self.memory_dumps.len()
            invariant
                i <= self.memory_dumps@.len(),
                out@ == self.memory_dumps@.subrange(0, i as int),
            decreases self.memory_dumps@.len() - i,
        {
            out.push(self.memory_dumps[i].clone());
            proof {
                assert(out@ =~= self.memory_dumps@.subrange(0, i + 1));
            }
            i = i + 1;
        }
        proof {
            assert(self.memory_dumps@.subrange(0, self.memory_dumps@.len() as int)
                =~= self.memory_dumps@);
        }
        out
    }

    /// Add one rule. Rejected when it is not a memory rule, when its
    /// platform is not this collector's, or when a rule of the same name is
    /// already loaded; otherwise it is appended.
    pub fn add_rule(&mut self, new_rule: CollectionRule) -> (r: Result<(), CollectError>)
        ensures
            final(self).platform == old(self).platform,
            final(self).memory_dumps == old(self).memory_dumps,
            !(new_rule is MemoryRule) ==> r == Err::<(), CollectError>(CollectError::RuleParseError)
                && final(self).rules == old(self).rules,
            new_rule matches CollectionRule::MemoryRule(m) ==> {
                &&& m.platform@ != old(self).platform@ ==> r == Err::<(), CollectError>(
                    CollectError::WrongPlatformRule,
                ) && final(self).rules == old(self).rules
                &&& (m.platform@ == old(self).platform@ && has_memory_rule(
                    old(self).rules@,
                    m.name@,
                )) ==> r == Err::<(), CollectError>(CollectError::DuplicateRule)
                    && final(self).rules == old(self).rules
                &&& (m.platform@ == old(self).platform@ && !has_memory_rule(
                    old(self).rules@,
                    m.name@,
                )) ==> r == Ok::<(), CollectError>(())
                    && final(self).rules@ == old(self).rules@.push(m)
            },
    {
        match new_rule {
            CollectionRule::MemoryRule(m) => {
                if !(m.platform == self.platform) {
                    return Err(CollectError::WrongPlatformRule);
                }
                let mut i: usize = 0;
                while i < self.rules.len()
                    invariant
                        i <= self.rules@.len(),
                        self == old(self),
                        new_rule == CollectionRule::MemoryRule(m),
                        m.platform@ == self.platform@,
                        forall|k: int|
                            0 <= k < i ==> (#[trigger] self.rules@[k].name)@ != m.name@,
                    decreases self.rules@.len() - i,
                {
                    if self.rules[i].name == m.name {
                        return Err(CollectError::DuplicateRule);
                    }
                    i = i + 1;
                }
                self.rules.push(m);
                Ok(())
            },
            _ => Err(CollectError::RuleParseError),
        }
    }

    /// The processes one named rule selects, in process-list order. Fails
    /// with `RuleNotFound` exactly when no loaded rule has the name; the
    /// first rule of the name decides. The caller dumps each returned
    /// process and records the dump paths with [`Self::collect_by_rulename`].
    pub fn processes_to_dump(&self, rule_name: &str, processes: &Vec<Process>) -> (r: Result<
        Vec<Process>,
        CollectError,
    >)
        ensures
            !has_memory_rule(self.rules@, rule_name@) ==> r == Err::<Vec<Process>, CollectError>(
                CollectError::RuleNotFound,
            ),
            forall|j: int|
                (0 <= j < self.rules@.len() && (#[trigger] self.rules@[j].name)@ == rule_name@ && (
                forall|k: int| 0 <= k < j ==> (#[trigger] self.rules@[k].name)@ != rule_name@))
                    ==> (r matches Ok(v) && v@ == processes@.filter(selected_pred(self.rules@[j]))),
    {
        let wanted = rule_name.to_owned();
        let mut i: usize = 0;
        while i < self.rules.len()
            invariant
                wanted@ == rule_name@,
                i <= self.rules@.len(),
                forall|k: int| 0 <= k < i ==> (#[trigger] self.rules@[k].name)@ != rule_name@,
            decreases self.rules@.len() - i,
        {
            if self.rules[i].name == wanted {
                let rule = &self.rules[i];
                let ghost j = i as int;
                let mut out: Vec<Process> = Vec::new();
                let mut p: usize = 0;
                proof {
                    assert(processes@.subrange(0, 0).filter(selected_pred(self.rules@[j])) =~= Seq::<
                        Process,
                    >::empty()) by {
                        reveal(Seq::filter);
                    }
                }
                while p < processes.len()
                    invariant
                        0 <= j < self.rules@.len(),
                        rule == &self.rules[j as int],
                        p <= processes@.len(),
                        out@ == processes@.subrange(0, p as int).filter(
                            selected_pred(self.rules@[j]),
                        ),
                    decreases processes@.len() - p,
                {
                    let ghost prefix = processes@.subrange(0, p as int);
                    let candidate = &processes[p];
                    if process_matches_rule(rule, candidate) {
                        out.push(Process { name: candidate.name.clone(), pid: candidate.pid });
                        proof {
                            assert(selected_pred(self.rules@[j])(processes@[p as int]));
                        }
                    } else {
                        proof {
                            assert(!(selected_pred(self.rules@[j])(processes@[p as int])));
                        }
                    }
                    proof {
                        assert(processes@.subrange(0, p + 1) =~= prefix + seq![
                            processes@[p as int],
                        ]);
                        lemma_filter_push(prefix, processes@[p as int], selected_pred(
                            self.rules@[j],
                        ));
                    }
                    p = p + 1;
                }
                proof {
                    assert(processes@.subrange(0, processes@.len() as int) =~= processes@);
                }
                return Ok(out);
            }
            i = i + 1;
        }
        Err(CollectError::RuleNotFound)
    }

    /// Record the dump paths produced for one named rule and report how many
    /// there are. Fails with `RuleNotFound` exactly when no loaded rule has
    /// the name, recording nothing.
    pub fn collect_by_rulename(&mut self, rule_name: &str, dumps: Vec<String>) -> (r: Result<
        usize,
        CollectError,
    >)
        ensures
            final(self).platform == old(self).platform,
            final(self).rules == old(self).rules,
            r is Ok <==> has_memory_rule(old(self).rules@, rule_name@),
            !has_memory_rule(old(self).rules@, rule_name@) ==> r == Err::<usize, CollectError>(
                CollectError::RuleNotFound,
            ) && final(self).memory_dumps == old(self).memory_dumps,
            has_memory_rule(old(self).rules@, rule_name@) ==> r == Ok::<usize, CollectError>(
                dumps@.len() as usize,
            ) && final(self).memory_dumps@ == old(self).memory_dumps@ + dumps@,
    {
        let wanted = rule_name.to_owned();
        let mut i: usize = 0;
        while i < self.rules.len()
            invariant
                wanted@ == rule_name@,
                i <= self.rules@.len(),
                forall|k: int| 0 <= k < i ==> (#[trigger] self.rules@[k].name)@ != rule_name@,
                self == old(self),
            decreases self.rules@.len() - i,
        {
            if self.rules[i].name == wanted {
                let count = dumps.len();
                let mut incoming = dumps;
                self.memory_dumps.append(&mut incoming);
                return Ok(count);
            }
            i = i + 1;
        }
        Err(CollectError::RuleNotFound)
    }
}

} // verus!
