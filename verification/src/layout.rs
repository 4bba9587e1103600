//! Where modules are kept on disk: programs in one directory, manifests in
//! another, both under one root that the caller names.

use vstd::prelude::*;

verus! {

/// The directories of an installation.
#[derive(Clone, Debug, PartialEq, Eq)]
pub struct Layout {
    /// The directory under which everything is kept, without a slash at
    /// its end.
    pub root: String,
}

/// The directory in which programs are installed.
pub open spec fn programs_under(root: Seq<char>) -> Seq<char> {
    root + "/libexec"@
}

/// The directory in which manifests are stored.
pub open spec fn manifests_under(root: Seq<char>) -> Seq<char> {
    root + "/modules"@
}

impl Layout {
    /// The layout under `root`.
    pub fn new(root: &str) -> (layout: Layout)
        ensures
            layout.root@ == root@,
    {
        Layout { root: String::from_str(root) }
    }

    pub fn program_dir(&self) -> (path: String)
        ensures
            path@ == programs_under(self.root@),
    {
        let mut path = self.root.clone();
        path.append("/libexec");
        path
    }

    pub fn manifest_dir(&self) -> (path: String)
        ensures
            path@ == manifests_under(self.root@),
    {
        let mut path = self.root.clone();
        path.append("/modules");
        path
    }

    /// Where the program called `name` is installed.
    pub fn program_path(&self, name: &str) -> (path: String)
        ensures
            path@ == programs_under(self.root@) + "/"@ + name@,
    {
        let mut path = self.program_dir();
        path.append("/");
        path.append(name);
        path
    }

    /// Where the manifest of the module `module_name` is stored.
    pub fn manifest_path(&self, module_name: &str) -> (path: String)
        ensures
            path@ == manifests_under(self.root@) + "/"@ + module_name@ + ".yaml"@,
    {
        let mut path = self.manifest_dir();
        path.append("/");
        path.append(module_name);
        path.append(".yaml");
        path
    }
}

} // verus!
