//! The modules that the RubyGems index lists.

use crate::registry::{metadata_views, modules_among, modules_of, ModuleMetadata, ModuleType};
use crate::text::views;
use vstd::prelude::*;

verus! {

#[verifier::external_type_specification]
#[verifier::external_body]
pub struct ExJsonError(serde_json::Error);

/// What the index says of one version of a gem, as far as it is used: the
/// version and the names of the gems needed at run time.
#[derive(Debug, Clone)]
pub struct GemSummary {
    pub version: String,
    pub runtime: Vec<String>,
}

/// The description of a gem could not be read.
#[derive(Clone, Copy, Debug, PartialEq, Eq, Structural)]
pub struct ParseError {
}

/// What `serde_json::from_str` reads from `json` as a
/// `known_types_rubygems::GemInfo`: the version of the gem and the names of
/// its run-time dependencies in order, or nothing where it fails.
pub uninterp spec fn gem_document(json: Seq<char>) -> Option<(Seq<char>, Seq<Seq<char>>)>;

/// `serde_json::from_str`, reading a `known_types_rubygems::GemInfo`, of
/// which the version and the names of the run-time dependencies are kept.
#[verifier::external_body]
fn read_gem(json: &str) -> (read: Result<GemSummary, serde_json::Error>)
    ensures
        match read {
            Ok(gem) => gem_document(json@) == Some((gem.version@, views(gem.runtime@))),
            Err(_) => gem_document(json@) is None,
        },
{
    let info: known_types_rubygems::GemInfo = serde_json::from_str(json)?;
    Ok(
        GemSummary {
            version: info.version,
            runtime: info.dependencies.runtime.into_iter().map(|dep| dep.name).collect(),
        },
    )
}

/// The modules among the run-time dependencies of the collection gem, each
/// with the version of the collection.
pub fn modules_of_gem(gem: &GemSummary) -> (modules: Vec<ModuleMetadata>)
    ensures
        metadata_views(modules@) == modules_among(
            views(gem.runtime@),
            gem.version@,
            ModuleType::Ruby,
            gem.runtime.len() as nat,
        ),
{
    modules_of(&gem.runtime, gem.version.as_str(), ModuleType::Ruby)
}

/// The modules that the description of the collection gem lists. Fails
/// where the description cannot be read.
pub fn extract_module_names(json_str: &str) -> (modules: Result<Vec<ModuleMetadata>, ParseError>)
    ensures
        match modules {
            Ok(list) => match gem_document(json_str@) {
                Some((version, runtime)) => metadata_views(list@) == modules_among(
                    runtime,
                    version,
                    ModuleType::Ruby,
                    runtime.len(),
                ),
                None => false,
            },
            Err(_) => gem_document(json_str@) is None,
        },
{
    match read_gem(json_str) {
        Ok(gem) => Ok(modules_of_gem(&gem)),
        Err(_) => Err(ParseError {  }),
    }
}

/// Where the description of a version of the collection gem is found.
pub fn modules_url(version: &str) -> (url: String)
    ensures
        url@ == "https://rubygems.org/api/v2/rubygems/asimov-modules/versions/"@ + version@
            + ".json"@,
{
    let mut url = String::from_str("https://rubygems.org/api/v2/rubygems/asimov-modules/versions/");
    url.append(version);
    url.append(".json");
    url
}

} // verus!
