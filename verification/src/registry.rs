//! The catalogue of published modules, as the package indexes describe it.
//!
//! Each index lists what its collection package depends on; the dependencies
//! that are called `asimov-<name>-module` are the modules. The lists of the
//! indexes are merged into one catalogue, ordered by name, in which each
//! name stands once.

use crate::text::{chars_of, ends_with, same_chars, slice_of, starts_with, string_of, views};
use vstd::prelude::*;

pub mod catalog;
pub mod crates;
pub mod digest;
pub mod github;
pub mod http;
pub mod pipeline;
pub mod pypi;
pub mod rubygems;

verus! {

/// The ecosystem a module is published in.
#[derive(Clone, Copy, Debug, PartialEq, Eq, Structural)]
pub enum ModuleType {
    Rust,
    Ruby,
    Python,
}

/// One published module, as a package index describes it.
#[derive(Clone, Debug)]
pub struct ModuleMetadata {
    pub name: String,
    pub version: String,
    pub kind: ModuleType,
    pub url: String,
}

pub struct MetadataView {
    pub name: Seq<char>,
    pub version: Seq<char>,
    pub kind: ModuleType,
    pub url: Seq<char>,
}

impl View for ModuleMetadata {
    type V = MetadataView;

    open spec fn view(&self) -> MetadataView {
        MetadataView { name: self.name@, version: self.version@, kind: self.kind, url: self.url@ }
    }
}

pub open spec fn metadata_views(modules: Seq<ModuleMetadata>) -> Seq<MetadataView> {
    Seq::new(modules.len(), |i: int| modules[i]@)
}

impl ModuleType {
    /// The name of the package index that serves modules of this type.
    pub open spec fn origin_name(self) -> Seq<char> {
        match self {
            ModuleType::Rust => "Cargo"@,
            ModuleType::Ruby => "RubyGems"@,
            ModuleType::Python => "PyPI"@,
        }
    }

    pub fn origin(&self) -> (name: &'static str)
        ensures
            name@ == self.origin_name(),
    {
        match self {
            ModuleType::Rust => "Cargo",
            ModuleType::Ruby => "RubyGems",
            ModuleType::Python => "PyPI",
        }
    }

    /// The word by which the type is written out.
    pub open spec fn word(self) -> Seq<char> {
        match self {
            ModuleType::Rust => "rust"@,
            ModuleType::Ruby => "ruby"@,
            ModuleType::Python => "python"@,
        }
    }

    pub fn to_string(&self) -> (text: String)
        ensures
            text@ == self.word(),
    {
        match self {
            ModuleType::Rust => String::from_str("rust"),
            ModuleType::Ruby => String::from_str("ruby"),
            ModuleType::Python => String::from_str("python"),
        }
    }

    /// Where the page of a package is found in the index of this type.
    pub open spec fn page_of(self, package: Seq<char>) -> Seq<char> {
        match self {
            ModuleType::Rust => "https://crates.io/crates/"@ + package,
            ModuleType::Ruby => "https://rubygems.org/gems/"@ + package,
            ModuleType::Python => "https://pypi.org/project/"@ + package + "/"@,
        }
    }

    pub fn package_url(&self, package: &str) -> (url: String)
        ensures
            url@ == self.page_of(package@),
    {
        match self {
            ModuleType::Rust => {
                let mut url = String::from_str("https://crates.io/crates/");
                url.append(package);
                url
            },
            ModuleType::Ruby => {
                let mut url = String::from_str("https://rubygems.org/gems/");
                url.append(package);
                url
            },
            ModuleType::Python => {
                let mut url = String::from_str("https://pypi.org/project/");
                url.append(package);
                url.append("/");
                url
            },
        }
    }
}

/// Whether a module is switched on. Every known module currently is.
pub fn is_enabled(_module_name: &str) -> (enabled: bool)
    ensures
        enabled,
{
    true
}

/// The module that a package is, going by its name: `<name>` where the
/// package is called `asimov-<name>-module`.
pub open spec fn module_name_of(package: Seq<char>) -> Option<Seq<char>> {
    let head = "asimov-"@;
    let tail = "-module"@;
    if head.is_prefix_of(package) && tail.is_suffix_of(package.skip(head.len() as int)) {
        Some(package.subrange(head.len() as int, package.len() - tail.len()))
    } else {
        None
    }
}

/// A package is a module exactly if it is called `asimov-<name>-module`, and
/// then it is the module `<name>`.
pub proof fn law_module_names(package: Seq<char>, name: Seq<char>)
    ensures
        module_name_of(package) == Some(name) <==> package == "asimov-"@ + name + "-module"@,
{
    let head = "asimov-"@;
    let tail = "-module"@;
    if package == head + name + tail {
        assert(package.subrange(0, head.len() as int) =~= head);
        let rest = package.skip(head.len() as int);
        assert(rest =~= name + tail);
        assert(rest.subrange(rest.len() - tail.len(), rest.len() as int) =~= tail);
        assert(package.subrange(head.len() as int, package.len() - tail.len()) =~= name);
    }
    if module_name_of(package) == Some(name) {
        let rest = package.skip(head.len() as int);
        assert(package =~= head + name + tail) by {
            assert(package.subrange(0, head.len() as int) == head);
            assert(rest.subrange(rest.len() - tail.len(), rest.len() as int) == tail);
            assert forall|i: int| 0 <= i < package.len() implies package[i] == (head + name
                + tail)[i] by {
                if i < head.len() {
                    assert(package.subrange(0, head.len() as int)[i] == package[i]);
                } else if i >= package.len() - tail.len() {
                    let j = i - head.len();
                    assert(rest[j] == package[i]);
                    assert(rest.subrange(rest.len() - tail.len(), rest.len() as int)[j - (
                    rest.len() - tail.len())] == rest[j]);
                }
            }
        }
    }
}

/// The module that a package is, if it is one.
pub fn module_name(package: &str) -> (name: Option<String>)
    ensures
        match name {
            Some(n) => module_name_of(package@) == Some(n@),
            None => module_name_of(package@) is None,
        },
{
    let all = chars_of(package);
    let head = chars_of("asimov-");
    let tail = chars_of("-module");
    if !starts_with(&all, &head) {
        return None;
    }
    let rest = slice_of(&all, head.len(), all.len());
    if !ends_with(&rest, &tail) {
        return None;
    }
    let name = slice_of(&all, head.len(), all.len() - tail.len());
    Some(string_of(&name))
}

/// What the catalogue says of the package `package` of a collection with
/// version `version`, if the package is a module.
pub open spec fn entry_for(package: Seq<char>, version: Seq<char>, kind: ModuleType) -> Option<
    MetadataView,
> {
    match module_name_of(package) {
        Some(name) => Some(MetadataView { name, version, kind, url: kind.page_of(package) }),
        None => None,
    }
}

/// The catalogue entries for the modules among the first `n` of `packages`,
/// in order.
pub open spec fn modules_among(
    packages: Seq<Seq<char>>,
    version: Seq<char>,
    kind: ModuleType,
    n: nat,
) -> Seq<MetadataView>
    decreases n,
{
    if n == 0 {
        Seq::empty()
    } else {
        let before = modules_among(packages, version, kind, (n - 1) as nat);
        match entry_for(packages[n - 1], version, kind) {
            Some(entry) => before.push(entry),
            None => before,
        }
    }
}

/// The catalogue entries for the modules among `packages`, which a
/// collection of version `version` in the index of type `kind` depends on.
pub fn modules_of(packages: &Vec<String>, version: &str, kind: ModuleType) -> (modules: Vec<
    ModuleMetadata,
>)
    ensures
        metadata_views(modules@) == modules_among(
            views(packages@),
            version@,
            kind,
            packages.len() as nat,
        ),
{
    let mut modules: Vec<ModuleMetadata> = Vec::new();
    let mut i: usize = 0;
    assert(metadata_views(modules@) =~= modules_among(views(packages@), version@, kind, 0));
    while i < packages.len()
        invariant
            i <= packages.len(),
            metadata_views(modules@) == modules_among(views(packages@), version@, kind, i as nat),
        decreases packages.len() - i,
    {
        assert(views(packages@)[i as int] == packages@[i as int]@);
        match module_name(packages[i].as_str()) {
            Some(name) => {
                let ghost before = metadata_views(modules@);
                let entry = ModuleMetadata {
                    name,
                    version: String::from_str(version),
                    kind,
                    url: kind.package_url(packages[i].as_str()),
                };
                modules.push(entry);
                assert(metadata_views(modules@) =~= before.push(entry@));
            },
            None => {},
        }
        i += 1;
    }
    modules
}

/// The names of the modules among the first `n` of `packages`, in order.
pub open spec fn names_among(packages: Seq<Seq<char>>, n: nat) -> Seq<Seq<char>>
    decreases n,
{
    if n == 0 {
        Seq::empty()
    } else {
        let before = names_among(packages, (n - 1) as nat);
        match module_name_of(packages[n - 1]) {
            Some(name) => before.push(name),
            None => before,
        }
    }
}

/// The names of the modules among `packages`.
pub fn module_names(packages: &Vec<String>) -> (names: Vec<String>)
    ensures
        views(names@) == names_among(views(packages@), packages.len() as nat),
{
    let mut names: Vec<String> = Vec::new();
    let mut i: usize = 0;
    assert(views(names@) =~= names_among(views(packages@), 0));
    while i < packages.len()
        invariant
            i <= packages.len(),
            views(names@) == names_among(views(packages@), i as nat),
        decreases packages.len() - i,
    {
        assert(views(packages@)[i as int] == packages@[i as int]@);
        match module_name(packages[i].as_str()) {
            Some(name) => {
                let ghost before = views(names@);
                names.push(name);
                assert(views(names@) =~= before.push(name@));
            },
            None => {},
        }
        i += 1;
    }
    names
}

/// The position of the first of the first `n` modules that is called
/// `name`, or -1.
pub open spec fn position_of(modules: Seq<MetadataView>, name: Seq<char>, n: nat) -> int
    decreases n,
{
    if n == 0 {
        -1
    } else {
        let before = position_of(modules, name, (n - 1) as nat);
        if before >= 0 {
            before
        } else if modules[n - 1].name == name {
            n - 1
        } else {
            -1
        }
    }
}

/// [`position_of`] is the position of a module of that name that no module
/// of that name precedes.
pub proof fn law_position_is_first(modules: Seq<MetadataView>, name: Seq<char>, n: nat)
    requires
        n <= modules.len(),
    ensures
        -1 <= position_of(modules, name, n) < n,
        position_of(modules, name, n) >= 0 ==> modules[position_of(modules, name, n)].name == name,
        forall|i: int|
            0 <= i < n && (#[trigger] modules[i]).name == name ==> 0 <= position_of(
                modules,
                name,
                n,
            ) <= i,
    decreases n,
{
    if n > 0 {
        law_position_is_first(modules, name, (n - 1) as nat);
    }
}

proof fn lemma_position_found(modules: Seq<MetadataView>, name: Seq<char>, at: nat, n: nat)
    requires
        at < n <= modules.len(),
        position_of(modules, name, at) == -1,
        modules[at as int].name == name,
    ensures
        position_of(modules, name, n) == at,
    decreases n,
{
    if n > at + 1 {
        lemma_position_found(modules, name, at, (n - 1) as nat);
    }
}

/// The position in the catalogue of the first module called `module_name`.
pub fn find_module(modules: &Vec<ModuleMetadata>, module_name: &str) -> (at: Option<usize>)
    ensures
        match at {
            Some(i) => i < modules.len() && i == position_of(
                metadata_views(modules@),
                module_name@,
                modules.len() as nat,
            ),
            None => position_of(metadata_views(modules@), module_name@, modules.len() as nat)
                == -1,
        },
{
    let wanted = chars_of(module_name);
    let mut i: usize = 0;
    while i < modules.len()
        invariant
            i <= modules.len(),
            wanted@ == module_name@,
            position_of(metadata_views(modules@), module_name@, i as nat) == -1,
        decreases modules.len() - i,
    {
        let name = chars_of(modules[i].name.as_str());
        assert(metadata_views(modules@)[i as int].name == name@);
        if same_chars(&name, &wanted) {
            proof {
                lemma_position_found(
                    metadata_views(modules@),
                    module_name@,
                    i as nat,
                    modules.len() as nat,
                );
            }
            return Some(i);
        }
        i += 1;
    }
    None
}

} // verus!
