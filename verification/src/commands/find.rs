//! Where the program of a module is looked for.

use crate::registry::{ModuleMetadata, ModuleType};
use vstd::prelude::*;

verus! {

/// The sub-command under which the program of a module is installed.
pub open spec fn command_of(module: Seq<char>) -> Seq<char> {
    module + "-module"@
}

/// `"<module>-module"`: the sub-command that is looked for behind the
/// prefix `asimov-`.
pub fn command_name(module_name: &str) -> (name: String)
    ensures
        name@ == command_of(module_name@),
{
    let mut name = String::from_str(module_name);
    name.append("-module");
    name
}

/// How to find out whether a module is installed.
#[derive(Clone, Debug, PartialEq, Eq)]
pub enum InstallProbe {
    /// Look for this sub-command of `asimov`.
    Command { name: String },
    /// Ask the Ruby environment for the module.
    RubyModule { name: String },
    /// Ask the Python environment for the module.
    PythonModule { name: String },
}

pub enum InstallProbeView {
    Command { name: Seq<char> },
    RubyModule { name: Seq<char> },
    PythonModule { name: Seq<char> },
}

impl View for InstallProbe {
    type V = InstallProbeView;

    open spec fn view(&self) -> InstallProbeView {
        match *self {
            InstallProbe::Command { name } => InstallProbeView::Command { name: name@ },
            InstallProbe::RubyModule { name } => InstallProbeView::RubyModule { name: name@ },
            InstallProbe::PythonModule { name } => InstallProbeView::PythonModule { name: name@ },
        }
    }
}

impl ModuleMetadata {
    /// How to find out whether the module is installed, which depends on
    /// the ecosystem it comes from.
    pub fn install_probe(&self) -> (probe: InstallProbe)
        ensures
            probe@ == match self.kind {
                ModuleType::Rust => InstallProbeView::Command { name: command_of(self.name@) },
                ModuleType::Ruby => InstallProbeView::RubyModule { name: self.name@ },
                ModuleType::Python => InstallProbeView::PythonModule { name: self.name@ },
            },
    {
        match self.kind {
            ModuleType::Rust => InstallProbe::Command { name: command_name(self.name.as_str()) },
            ModuleType::Ruby => InstallProbe::RubyModule { name: self.name.clone() },
            ModuleType::Python => InstallProbe::PythonModule { name: self.name.clone() },
        }
    }
}

} // verus!
