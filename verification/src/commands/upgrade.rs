//! Whether a module needs an upgrade.

use crate::registry::github::PlatformTag;
use crate::registry::pipeline::{initial, text_of, Installation};
use crate::text::same_text;
use vstd::prelude::*;

verus! {

/// What to do about a module that is to be upgraded.
#[derive(Clone, Copy, Debug, PartialEq, Eq, Structural)]
pub enum UpgradeDecision {
    /// The wanted version is installed: nothing is fetched or written.
    AlreadyCurrent,
    /// Another version, or none, is installed: install the wanted one.
    Install,
}

/// The module has the version `target` exactly if that is the version
/// recorded as installed.
pub open spec fn is_current(current: Option<Seq<char>>, target: Seq<char>) -> bool {
    current == Some(target)
}

/// Decides from the version that is recorded as installed and the version
/// that is wanted.
pub fn upgrade_decision(current: &Option<String>, target: &str) -> (decision: UpgradeDecision)
    ensures
        decision == (if is_current(text_of(*current), target@) {
            UpgradeDecision::AlreadyCurrent
        } else {
            UpgradeDecision::Install
        }),
{
    match current {
        Some(version) => if same_text(version.as_str(), target) {
            UpgradeDecision::AlreadyCurrent
        } else {
            UpgradeDecision::Install
        },
        None => UpgradeDecision::Install,
    }
}

/// The installation with which a module is upgraded to `target`, or none
/// where the module has that version already: then the upgrade ends at
/// once, without a request and without a change on disk.
pub fn begin_upgrade(
    module_name: &str,
    current: &Option<String>,
    target: &str,
    platform: PlatformTag,
) -> (installation: Option<Installation>)
    ensures
        match installation {
            Some(state) => !is_current(text_of(*current), target@) && state@ == initial(
                module_name@,
                Some(target@),
                platform,
            ),
            None => is_current(text_of(*current), target@),
        },
{
    match upgrade_decision(current, target) {
        UpgradeDecision::AlreadyCurrent => None,
        UpgradeDecision::Install => Some(
            Installation::new(module_name, Some(String::from_str(target)), platform),
        ),
    }
}

/// The modules to upgrade: those that are named, or all that are installed
/// where none is named.
pub fn modules_to_upgrade(named: Vec<String>, installed: Vec<String>) -> (modules: Vec<String>)
    ensures
        modules == (if named.len() > 0 {
            named
        } else {
            installed
        }),
{
    if named.len() > 0 {
        named
    } else {
        installed
    }
}

} // verus!
