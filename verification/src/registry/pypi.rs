//! The modules that the Python package index lists.

use crate::registry::{metadata_views, modules_among, modules_of, ModuleMetadata, ModuleType};
use crate::text::{chars_of, find_first_of, first_of, slice_of, string_of, views};
use vstd::prelude::*;

verus! {

/// What the index says of one version of a package.
#[derive(Debug, Clone)]
pub struct PackageInfo {
    pub name: String,
    pub version: String,
    /// The requirements of the package, as it states them; `None` where it
    /// states none.
    pub requires_dist: Option<Vec<String>>,
}

/// The characters that end the name of a package in a requirement.
pub open spec fn name_ends() -> Seq<char> {
    seq![' ', '<', '>', ';', '[']
}

/// The name of the package that a requirement asks for: what stands before
/// the first blank, `<`, `>`, `;` or `[`.
pub open spec fn required_package(requirement: Seq<char>) -> Seq<char> {
    requirement.take(first_of(requirement, name_ends()))
}

/// The packages that the requirements ask for, in order.
pub open spec fn required_packages(requirements: Seq<Seq<char>>) -> Seq<Seq<char>> {
    Seq::new(requirements.len(), |i: int| required_package(requirements[i]))
}

/// The name of the package that a requirement asks for.
pub fn package_of(requirement: &str) -> (package: String)
    ensures
        package@ == required_package(requirement@),
{
    let all = chars_of(requirement);
    let stops: Vec<char> = vec![' ', '<', '>', ';', '['];
    assert(stops@ =~= name_ends());
    let end = find_first_of(&all, &stops);
    string_of(&slice_of(&all, 0, end))
}

/// The version of the package and the packages that it requires. A package
/// that states no requirements requires nothing.
pub open spec fn requirements_of(info: PackageInfo) -> Seq<Seq<char>> {
    match info.requires_dist {
        Some(requirements) => required_packages(views(requirements@)),
        None => Seq::empty(),
    }
}

/// The modules that the version of the collection package requires, each
/// with the version of the collection.
pub fn extract_module_names(info: &PackageInfo) -> (modules: Vec<ModuleMetadata>)
    ensures
        metadata_views(modules@) == modules_among(
            requirements_of(*info),
            info.version@,
            ModuleType::Python,
            requirements_of(*info).len(),
        ),
{
    let mut packages: Vec<String> = Vec::new();
    match &info.requires_dist {
        Some(requirements) => {
            let mut i: usize = 0;
            while i < requirements.len()
                invariant
                    i <= requirements.len(),
                    packages.len() == i,
                    forall|j: int|
                        0 <= j < i ==> (#[trigger] packages@[j])@ == required_package(
                            requirements@[j]@,
                        ),
                decreases requirements.len() - i,
            {
                packages.push(package_of(requirements[i].as_str()));
                i += 1;
            }
        },
        None => {},
    }
    assert(views(packages@) =~= requirements_of(*info));
    modules_of(&packages, info.version.as_str(), ModuleType::Python)
}

/// Where the description of a version of the collection package is found.
pub fn modules_url(version: &str) -> (url: String)
    ensures
        url@ == "https://pypi.org/pypi/asimov-modules/"@ + version@ + "/json"@,
{
    let mut url = String::from_str("https://pypi.org/pypi/asimov-modules/");
    url.append(version);
    url.append("/json");
    url
}

} // verus!
