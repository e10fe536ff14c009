use vstd::prelude::*;
use vstd::string::*;

use crate::pattern::{regex_is_valid, regex_valid};
use crate::text::{clears_pattern, is_clear_keyword, split_trimmed, str_eq, trim_spec, trim_str, views_of};

verus! {

/// The persisted user preferences: the organizations to search, the acting
/// user's login, and an optional repository-name pattern.
#[derive(Debug, Clone, PartialEq)]
pub struct Config {
    pub orgs: Vec<String>,
    pub username: String,
    pub repo_pattern: Option<String>,
}

/// The error a configuration mutation can report.
#[derive(Debug, Clone, PartialEq, Eq)]
pub enum ConfigError {
    /// The submitted repository pattern is not a valid regular expression.
    InvalidPattern,
}

/// Whether some entry of `orgs` reads `org`.
pub open spec fn org_listed(orgs: Seq<String>, org: Seq<char>) -> bool {
    exists|i: int| 0 <= i < orgs.len() && orgs[i]@ == org
}

/// The first index of `orgs` whose entry reads `org`, or `-1` if none does.
pub open spec fn first_org_index(orgs: Seq<String>, org: Seq<char>) -> int
    decreases orgs.len(),
{
    if orgs.len() == 0 {
        -1
    } else if orgs[0]@ == org {
        0
    } else {
        let rest = first_org_index(orgs.drop_first(), org);
        if rest < 0 {
            -1
        } else {
            rest + 1
        }
    }
}

pub proof fn lemma_first_org_index(orgs: Seq<String>, org: Seq<char>)
    ensures
        first_org_index(orgs, org) >= 0 <==> org_listed(orgs, org),
        first_org_index(orgs, org) >= 0 ==> first_org_index(orgs, org) < orgs.len(),
        first_org_index(orgs, org) >= 0 ==> orgs[first_org_index(orgs, org)]@ == org,
        forall|k: int| 0 <= k < first_org_index(orgs, org) ==> orgs[k]@ != org,
    decreases orgs.len(),
{
    if orgs.len() == 0 {
    } else {
        let rest = orgs.drop_first();
        lemma_first_org_index(rest, org);
        if orgs[0]@ != org {
            if org_listed(orgs, org) {
                let i = choose|i: int| 0 <= i < orgs.len() && orgs[i]@ == org;
                assert(rest[i - 1]@ == org);
            }
            if org_listed(rest, org) {
                let i = choose|i: int| 0 <= i < rest.len() && rest[i]@ == org;
                assert(orgs[i + 1]@ == org);
            }
            assert forall|k: int| 0 <= k < first_org_index(orgs, org) implies orgs[k]@ != org by {
                if k > 0 {
                    assert(rest[k - 1]@ != org);
                }
            }
        }
    }
}

/// A stored pattern, if present, was accepted by the regular-expression
/// engine when it was stored.
pub open spec fn pattern_wf(c: Config) -> bool {
    c.repo_pattern matches Some(p) ==> regex_valid(p@)
}

impl Config {
    /// Appends `org` unless an equal entry is already listed; reports whether
    /// it was appended. The other fields are untouched.
    pub fn add_org(&mut self, org: String) -> (added: bool)
        ensures
            added == !org_listed(old(self).orgs@, org@),
            added ==> final(self).orgs@ == old(self).orgs@.push(org),
            !added ==> final(self).orgs@ == old(self).orgs@,
            final(self).username == old(self).username,
            final(self).repo_pattern == old(self).repo_pattern,
    {
        let mut i: usize = 0;
        while i < self.orgs.len()
            invariant
                i <= self.orgs.len(),
                *self == *old(self),
                forall|k: int| 0 <= k < i ==> self.orgs@[k]@ != org@,
            decreases self.orgs.len() - i,
        {
            if str_eq(self.orgs[i].as_str(), org.as_str()) {
                return false;
            }
            i += 1;
        }
        self.orgs.push(org);
        true
    }

    /// Removes the first entry equal to `org`, if one is listed; reports
    /// whether an entry was removed. The other fields are untouched.
    pub fn remove_org(&mut self, org: &str) -> (removed: bool)
        ensures
            removed == org_listed(old(self).orgs@, org@),
            removed ==> final(self).orgs@ == old(self).orgs@.remove(
                first_org_index(old(self).orgs@, org@),
            ),
            !removed ==> final(self).orgs@ == old(self).orgs@,
            final(self).username == old(self).username,
            final(self).repo_pattern == old(self).repo_pattern,
    {
        let mut i: usize = 0;
        while i < self.orgs.len()
            invariant
                i <= self.orgs.len(),
                *self == *old(self),
                forall|k: int| 0 <= k < i ==> self.orgs@[k]@ != org@,
            decreases self.orgs.len() - i,
        {
            if str_eq(self.orgs[i].as_str(), org) {
                proof {
                    lemma_first_org_index(self.orgs@, org@);
                    let f = first_org_index(self.orgs@, org@);
                    assert(f >= 0);
                    assert(f == i as int) by {
                        if f < i as int {
                            assert(self.orgs@[f]@ != org@);
                        }
                        if (i as int) < f {
                            assert(self.orgs@[i as int]@ != org@);
                        }
                    }
                }
                self.orgs.remove(i);
                return true;
            }
            i += 1;
        }
        false
    }

    /// Replaces the organization list wholesale. The other fields are
    /// untouched.
    pub fn set_orgs(&mut self, orgs: Vec<String>)
        ensures
            final(self).orgs == orgs,
            final(self).username == old(self).username,
            final(self).repo_pattern == old(self).repo_pattern,
    {
        self.orgs = orgs;
    }

    /// Stores, clears or rejects a repository pattern: `None` and the literal
    /// token `none` (in any letter case) clear the stored pattern; a pattern
    /// the regular-expression engine accepts is stored; any other pattern is
    /// rejected and the configuration is left unchanged.
    pub fn set_repo_pattern(&mut self, pattern: Option<String>) -> (r: Result<(), ConfigError>)
        ensures
            pattern is None ==> r is Ok && final(self).repo_pattern is None,
            pattern matches Some(p) ==> {
                &&& clears_pattern(p@) ==> r is Ok && final(self).repo_pattern is None
                &&& !clears_pattern(p@) && regex_valid(p@) ==> r is Ok && final(self).repo_pattern
                    == Some(p)
                &&& !clears_pattern(p@) && !regex_valid(p@) ==> r == Err::<(), ConfigError>(
                    ConfigError::InvalidPattern,
                ) && final(self).repo_pattern == old(self).repo_pattern
            },
            r is Ok ==> pattern_wf(*final(self)),
            final(self).orgs == old(self).orgs,
            final(self).username == old(self).username,
    {
        match pattern {
            None => {
                self.repo_pattern = None;
                Ok(())
            },
            Some(p) => {
                if is_clear_keyword(p.as_str()) {
                    self.repo_pattern = None;
                    Ok(())
                } else if regex_is_valid(p.as_str()) {
                    self.repo_pattern = Some(p);
                    Ok(())
                } else {
                    Err(ConfigError::InvalidPattern)
                }
            },
        }
    }
}

/// One organization edit, parsed from the command line: `+org` adds, `-org`
/// removes, anything else replaces the whole list with its comma-separated
/// entries.
#[derive(Debug, PartialEq)]
pub enum OrgModification {
    Add(String),
    Remove(String),
    Replace(Vec<String>),
}

/// Parses an organization edit: a leading `+` adds the trimmed remainder, a
/// leading `-` removes it, and any other string replaces the list with its
/// comma-separated, trimmed pieces.
pub fn parse_org_modification(org_str: &str) -> (r: OrgModification)
    ensures
        org_str@.len() > 0 && org_str@[0] == '+' ==> (r matches OrgModification::Add(o) && o@
            == trim_spec(org_str@.drop_first())),
        org_str@.len() > 0 && org_str@[0] == '-' ==> (r matches OrgModification::Remove(o) && o@
            == trim_spec(org_str@.drop_first())),
        org_str@.len() == 0 || (org_str@[0] != '+' && org_str@[0] != '-') ==> (
        r matches OrgModification::Replace(v) && views_of(v@) == split_trimmed(org_str@)),
{
    let n = org_str.unicode_len();
    if n > 0 {
        let c = org_str.get_char(0);
        if c == '+' {
            let rest = org_str.substring_char(1, n);
            proof {
                assert(rest@ =~= org_str@.drop_first());
            }
            return OrgModification::Add(trim_str(rest));
        } else if c == '-' {
            let rest = org_str.substring_char(1, n);
            proof {
                assert(rest@ =~= org_str@.drop_first());
            }
            return OrgModification::Remove(trim_str(rest));
        }
    }
    OrgModification::Replace(crate::text::split_and_trim(org_str))
}

} // verus!
