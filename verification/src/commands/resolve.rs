//! Which modules handle a URL.

use crate::manifest::ModuleManifest;
use crate::normalization::normalized_or_same;
use crate::resolver::{handlers_of, resolution, ResolveError, Resolver};
use crate::text::views;
use vstd::prelude::*;

verus! {

/// The modules among `manifests` that handle `url`, which is first brought
/// into normal form where it has one. Fails where a manifest is not well
/// formed, and where no module handles the URL.
pub fn resolve(url: &str, manifests: &Vec<ModuleManifest>) -> (found: Result<
    Vec<String>,
    ResolveError,
>)
    ensures
        match found {
            Ok(names) => {
                &&& forall|k: int| 0 <= k < manifests.len() ==> (#[trigger] manifests[k]).wf()
                &&& names.len() > 0
                &&& views(names@) == resolution(handlers_of(manifests@), normalized_or_same(url@))
            },
            Err(ResolveError::InvalidManifest) => exists|k: int|
                0 <= k < manifests.len() && !(#[trigger] manifests[k]).wf(),
            Err(ResolveError::NoMatch) => {
                &&& forall|k: int| 0 <= k < manifests.len() ==> (#[trigger] manifests[k]).wf()
                &&& resolution(handlers_of(manifests@), normalized_or_same(url@)).len() == 0
            },
        },
{
    let resolver = match Resolver::try_from_manifests(manifests) {
        Ok(resolver) => resolver,
        Err(e) => {
            return Err(e);
        },
    };
    resolver.resolve_url(url)
}

/// The exit status of a failed resolution: 64 where nothing handles the
/// URL, 65 where a manifest is malformed.
pub fn exit_code(error: ResolveError) -> (code: u8)
    ensures
        code == match error {
            ResolveError::NoMatch => 64u8,
            ResolveError::InvalidManifest => 65u8,
        },
{
    match error {
        ResolveError::NoMatch => 64,
        ResolveError::InvalidManifest => 65,
    }
}

} // verus!
