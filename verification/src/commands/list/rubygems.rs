//! The names of the modules that the RubyGems index lists.

use crate::registry::{module_names, names_among};
use crate::text::views;
use vstd::prelude::*;

verus! {

/// Where the description of a version of the collection gem is found.
pub fn modules_url(version: &str) -> (url: String)
    ensures
        url@ == "https://rubygems.org/api/v2/rubygems/asimov-modules/versions/"@ + version@
            + ".json"@,
{
    crate::registry::rubygems::modules_url(version)
}

/// The names of the modules among the gems that the collection gem needs at
/// run time.
pub fn extract_module_names(runtime_dependencies: &Vec<String>) -> (names: Vec<String>)
    ensures
        views(names@) == names_among(
            views(runtime_dependencies@),
            runtime_dependencies.len() as nat,
        ),
{
    module_names(runtime_dependencies)
}

} // verus!
