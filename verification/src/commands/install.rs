//! What installing modules decides besides the installation itself: which
//! modules are meant, and whether a module can be enabled once installed.

use crate::manifest::ConfigVariable;
use crate::registry::github::{is_success, InstallError};
use crate::registry::ModuleType;
use crate::text::{same_text, views};
use vstd::prelude::*;

verus! {

#[verifier::external_type_specification]
#[verifier::external_body]
pub struct ExYamlError(serde_yml::Error);

/// Whether all published modules are meant: the one name given is `all`.
pub fn wants_all(module_names: &Vec<String>) -> (all: bool)
    ensures
        all == (module_names.len() == 1 && module_names[0]@ == "all"@),
{
    module_names.len() == 1 && same_text(module_names[0].as_str(), "all")
}

/// The names of the modules that `serde_yml::from_str` reads from `yaml` as
/// an `asimov_module::ModuleManifest` under `requires.modules`, or nothing
/// where it fails.
pub uninterp spec fn required_modules(yaml: Seq<char>) -> Option<Seq<Seq<char>>>;

/// `serde_yml::from_str`, reading an `asimov_module::ModuleManifest`, of
/// which the names of the required modules are kept. That the parser
/// returns on every text, with a manifest or an error, is taken from it on
/// trust.
#[verifier::external_body]
fn read_required_modules(yaml: &str) -> (read: Result<Vec<String>, serde_yml::Error>)
    ensures
        match read {
            Ok(names) => required_modules(yaml@) == Some(views(names@)),
            Err(_) => required_modules(yaml@) is None,
        },
{
    let manifest: asimov_module::ModuleManifest = serde_yml::from_str(yaml)?;
    Ok(manifest.requires.modules)
}

/// The names of all published modules, which the answer to the request for
/// the manifest of the collection holds: the modules that the collection
/// requires. Fails where the answer is no success or holds no manifest.
///
/// The manifest is read by the YAML parser of `serde_yml`. Nothing here
/// proves that the parser does not panic on some text: that it does not is
/// taken from it on trust.
pub fn all_module_names(status: u16, body: &str) -> (names: Result<Vec<String>, InstallError>)
    ensures
        match names {
            Ok(list) => is_success(status) && required_modules(body@) == Some(views(list@)),
            Err(e) => e == (if !is_success(status) {
                InstallError::Network
            } else {
                InstallError::Data
            }) && (is_success(status) ==> required_modules(body@) is None),
        },
{
    if !(200 <= status && status < 300) {
        return Err(InstallError::Network);
    }
    match read_required_modules(body) {
        Ok(names) => Ok(names),
        Err(_) => Err(InstallError::Data),
    }
}

/// What is known of the value of a configuration variable.
#[derive(Clone, Copy, Debug, PartialEq, Eq, Structural)]
pub enum VariableState {
    /// It has a value.
    Configured,
    /// It has no value.
    Unconfigured,
    /// Whether it has a value could not be found out.
    Unreadable,
}

/// The state of the variable at position `i`. A variable of which nothing
/// is said counts as unconfigured.
pub open spec fn state_at(states: Seq<VariableState>, i: int) -> VariableState {
    if 0 <= i < states.len() {
        states[i]
    } else {
        VariableState::Unconfigured
    }
}

/// The variable at position `i` has no default and is in state `state`.
pub open spec fn needs(
    variables: Seq<ConfigVariable>,
    states: Seq<VariableState>,
    i: int,
    state: VariableState,
) -> bool {
    variables[i].default_value is None && state_at(states, i) == state
}

/// The positions of the variables among the first `n` that must be
/// configured before the module can be enabled: those that have neither a
/// default nor a value.
pub open spec fn missing_among(
    variables: Seq<ConfigVariable>,
    states: Seq<VariableState>,
    n: nat,
) -> Seq<usize>
    decreases n,
{
    if n == 0 {
        Seq::empty()
    } else {
        let before = missing_among(variables, states, (n - 1) as nat);
        if needs(variables, states, n - 1, VariableState::Unconfigured) {
            before.push((n - 1) as usize)
        } else {
            before
        }
    }
}

/// The position of the first variable among the first `n` that has no
/// default and whose value could not be read, or -1.
pub open spec fn first_unreadable(
    variables: Seq<ConfigVariable>,
    states: Seq<VariableState>,
    n: nat,
) -> int
    decreases n,
{
    if n == 0 {
        -1
    } else {
        let before = first_unreadable(variables, states, (n - 1) as nat);
        if before >= 0 {
            before
        } else if needs(variables, states, n - 1, VariableState::Unreadable) {
            n - 1
        } else {
            -1
        }
    }
}

proof fn lemma_first_unreadable_found(
    variables: Seq<ConfigVariable>,
    states: Seq<VariableState>,
    at: nat,
    n: nat,
)
    requires
        at < n <= variables.len(),
        first_unreadable(variables, states, at) == -1,
        needs(variables, states, at as int, VariableState::Unreadable),
    ensures
        first_unreadable(variables, states, n) == at,
    decreases n,
{
    if n > at + 1 {
        lemma_first_unreadable_found(variables, states, at, (n - 1) as nat);
    }
}

/// A variable could not be read.
#[derive(Clone, Copy, Debug, PartialEq, Eq, Structural)]
pub struct UnreadableVariable {
    /// The position of the variable in the manifest.
    pub position: usize,
}

/// The variables of a module that must be configured before the module can
/// be enabled, by their positions in `variables`; `states` says of each
/// variable what is known of its value. A variable with a default is never
/// missing, whatever its state. Fails where the value of a variable
/// without default could not be read.
pub fn missing_variables(variables: &Vec<ConfigVariable>, states: &Vec<VariableState>) -> (missing:
    Result<Vec<usize>, UnreadableVariable>)
    ensures
        match missing {
            Ok(positions) => first_unreadable(variables@, states@, variables.len() as nat) == -1
                && positions@ == missing_among(variables@, states@, variables.len() as nat),
            Err(e) => e.position == first_unreadable(
                variables@,
                states@,
                variables.len() as nat,
            ),
        },
{
    let mut positions: Vec<usize> = Vec::new();
    let mut i: usize = 0;
    while i < variables.len()
        invariant
            i <= variables.len(),
            first_unreadable(variables@, states@, i as nat) == -1,
            positions@ == missing_among(variables@, states@, i as nat),
        decreases variables.len() - i,
    {
        if variables[i].default_value.is_none() {
            let state = if i < states.len() {
                states[i]
            } else {
                VariableState::Unconfigured
            };
            match state {
                VariableState::Configured => {},
                VariableState::Unconfigured => {
                    positions.push(i);
                },
                VariableState::Unreadable => {
                    proof {
                        lemma_first_unreadable_found(
                            variables@,
                            states@,
                            i as nat,
                            variables.len() as nat,
                        );
                    }
                    return Err(UnreadableVariable { position: i });
                },
            }
        }
        i += 1;
    }
    Ok(positions)
}

/// Whether a module can be enabled right after it was installed: it can
/// where none of its variables is missing.
pub fn can_enable(missing: &Vec<usize>) -> (enable: bool)
    ensures
        enable == (missing.len() == 0),
{
    missing.len() == 0
}

/// The package managers through which modules can be installed.
#[derive(Clone, Copy, Debug, PartialEq, Eq, Structural)]
pub enum PackageManager {
    Cargo,
    Gem,
    Pip,
}

impl ModuleType {
    /// The package manager of the ecosystem.
    pub fn package_manager(&self) -> (manager: PackageManager)
        ensures
            manager == match *self {
                ModuleType::Rust => PackageManager::Cargo,
                ModuleType::Ruby => PackageManager::Gem,
                ModuleType::Python => PackageManager::Pip,
            },
    {
        match self {
            ModuleType::Rust => PackageManager::Cargo,
            ModuleType::Ruby => PackageManager::Gem,
            ModuleType::Python => PackageManager::Pip,
        }
    }
}

/// The package manager to turn to once the installation of a module of type
/// `kind` from a release has failed with `error`, if any: none after a
/// wrong digest, else that of the ecosystem of the module.
pub fn fallback_for(error: InstallError, kind: ModuleType) -> (manager: Option<PackageManager>)
    ensures
        manager == (if error == InstallError::ChecksumMismatch {
            None
        } else {
            Some(
                match kind {
                    ModuleType::Rust => PackageManager::Cargo,
                    ModuleType::Ruby => PackageManager::Gem,
                    ModuleType::Python => PackageManager::Pip,
                },
            )
        }),
{
    if error.allows_fallback() {
        Some(kind.package_manager())
    } else {
        None
    }
}

} // verus!
