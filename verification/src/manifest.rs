//! What a module declares about itself.

use crate::pattern::{compile, pattern_is_valid};
use crate::text::chars_of;
use vstd::prelude::*;

verus! {

/// A value that a module reads from its configuration.
#[derive(Clone, Debug)]
pub struct ConfigVariable {
    pub name: String,
    pub description: Option<String>,
    /// The environment variable that is consulted before the stored value.
    pub environment: Option<String>,
    /// The value used where none is configured. A variable without one must
    /// be configured before the module can run.
    pub default_value: Option<String>,
}

/// The URLs that a module can handle.
#[derive(Clone, Debug)]
pub struct Handles {
    /// URL schemes, such as `https` or `ipfs`.
    pub protocols: Vec<String>,
    /// Literal beginnings of URLs.
    pub prefixes: Vec<String>,
    /// Regular expressions that are searched for in URLs.
    pub patterns: Vec<String>,
}

/// What a module installs.
#[derive(Clone, Debug)]
pub struct Provides {
    pub programs: Vec<String>,
}

/// The manifest of one module.
#[derive(Clone, Debug)]
pub struct ModuleManifest {
    pub name: String,
    pub label: String,
    pub links: Vec<String>,
    pub handles: Handles,
    pub config: Vec<ConfigVariable>,
    pub provides: Provides,
    /// The names of the modules that this one depends on.
    pub requires: Vec<String>,
}

/// Why a manifest is not accepted.
#[derive(Clone, Copy, Debug, PartialEq, Eq, Structural)]
pub enum ManifestError {
    /// The name is empty or holds a character other than `a`-`z`, `0`-`9`, `-`.
    InvalidName,
    /// The pattern at this position is no regular expression.
    InvalidPattern(usize),
}

pub open spec fn is_name_char(c: char) -> bool {
    ('a' <= c && c <= 'z') || ('0' <= c && c <= '9') || c == '-'
}

/// A module name is a non-empty run of lower-case letters, digits and hyphens.
pub open spec fn valid_module_name(name: Seq<char>) -> bool {
    &&& name.len() > 0
    &&& forall|i: int| 0 <= i < name.len() ==> is_name_char(#[trigger] name[i])
}

/// Whether `name` can be the name of a module.
pub fn is_valid_module_name(name: &str) -> (valid: bool)
    ensures
        valid == valid_module_name(name@),
{
    let chars = chars_of(name);
    if chars.len() == 0 {
        return false;
    }
    let mut i: usize = 0;
    while i < chars.len()
        invariant
            i <= chars.len(),
            chars@ == name@,
            forall|j: int| 0 <= j < i ==> is_name_char(#[trigger] name@[j]),
        decreases chars.len() - i,
    {
        let c = chars[i];
        if !(('a' <= c && c <= 'z') || ('0' <= c && c <= '9') || c == '-') {
            assert(!is_name_char(name@[i as int]));
            return false;
        }
        i += 1;
    }
    true
}

impl ModuleManifest {
    /// The first `n` patterns are regular expressions.
    pub open spec fn patterns_valid_upto(&self, n: int) -> bool {
        forall|i: int| 0 <= i < n ==> pattern_is_valid(#[trigger] self.handles.patterns[i]@)
    }

    /// The manifest's invariant: its name is a module name and each of its
    /// patterns is a regular expression.
    pub open spec fn wf(&self) -> bool {
        &&& valid_module_name(self.name@)
        &&& self.patterns_valid_upto(self.handles.patterns.len() as int)
    }

    /// What is wrong with the manifest, if anything: the name first, then the
    /// first pattern that is no regular expression.
    pub open spec fn fault(&self) -> Option<ManifestError> {
        if !valid_module_name(self.name@) {
            Some(ManifestError::InvalidName)
        } else if exists|i: int| self.bad_pattern_at(i) {
            Some(ManifestError::InvalidPattern(self.first_bad_pattern() as usize))
        } else {
            None
        }
    }

    pub open spec fn bad_pattern_at(&self, i: int) -> bool {
        0 <= i < self.handles.patterns.len() && !pattern_is_valid(self.handles.patterns[i]@)
    }

    /// The position of the first pattern that is no regular expression.
    pub open spec fn first_bad_pattern(&self) -> int {
        choose|i: int| self.bad_pattern_at(i) && self.patterns_valid_upto(i)
    }

    /// Checks the manifest's invariant.
    pub fn validate(&self) -> (checked: Result<(), ManifestError>)
        ensures
            checked is Ok == self.wf(),
            checked == match self.fault() {
                Some(e) => Err::<(), ManifestError>(e),
                None => Ok(()),
            },
    {
        if !is_valid_module_name(self.name.as_str()) {
            return Err(ManifestError::InvalidName);
        }
        let mut i: usize = 0;
        while i < self.handles.patterns.len()
            invariant
                i <= self.handles.patterns.len(),
                valid_module_name(self.name@),
                self.patterns_valid_upto(i as int),
            decreases self.handles.patterns.len() - i,
        {
            if compile(self.handles.patterns[i].as_str()).is_err() {
                proof {
                    assert(self.bad_pattern_at(i as int));
                    let first = self.first_bad_pattern();
                    assert(self.bad_pattern_at(first) && self.patterns_valid_upto(first));
                    if first < i {
                        assert(pattern_is_valid(self.handles.patterns[first]@));
                    } else if first > i {
                        assert(pattern_is_valid(self.handles.patterns[i as int]@));
                    }
                }
                return Err(ManifestError::InvalidPattern(i));
            }
            i += 1;
        }
        proof {
            assert forall|i: int| !self.bad_pattern_at(i) by {
                if 0 <= i < self.handles.patterns.len() {
                    assert(pattern_is_valid(self.handles.patterns[i]@));
                }
            }
        }
        Ok(())
    }
}

} // verus!
