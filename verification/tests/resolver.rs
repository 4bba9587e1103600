use asimov_module_cli::manifest::{Handles, ManifestError, ModuleManifest, Provides};
use asimov_module_cli::commands::resolve::{exit_code, resolve};
use asimov_module_cli::resolver::{ResolveError, Resolver, ResolverBuilder};

fn manifest(
    name: &str,
    protocols: &[&str],
    prefixes: &[&str],
    patterns: &[&str],
) -> ModuleManifest {
    ModuleManifest {
        name: name.to_string(),
        label: name.to_uppercase(),
        links: Vec::new(),
        handles: Handles {
            protocols: protocols.iter().map(|s| s.to_string()).collect(),
            prefixes: prefixes.iter().map(|s| s.to_string()).collect(),
            patterns: patterns.iter().map(|s| s.to_string()).collect(),
        },
        config: Vec::new(),
        provides: Provides { programs: Vec::new() },
        requires: Vec::new(),
    }
}

#[test]
fn longest_prefix_wins() {
    let manifests = vec![
        manifest("site", &[], &["https://example.com/"], &[]),
        manifest("api", &[], &["https://example.com/api/"], &[]),
    ];
    let resolver = Resolver::try_from_manifests(&manifests).unwrap();
    assert_eq!(
        resolver.resolve("https://example.com/api/x"),
        Ok(vec!["api".to_string()])
    );
    assert_eq!(
        resolver.resolve("https://example.com/about"),
        Ok(vec!["site".to_string()])
    );
}

#[test]
fn equal_prefixes_come_in_insertion_order() {
    let manifests = vec![
        manifest("second", &[], &["https://example.com/api/"], &[]),
        manifest("short", &[], &["https://example.com/"], &[]),
        manifest("first", &[], &["https://example.com/api/"], &[]),
    ];
    let resolver = Resolver::try_from_manifests(&manifests).unwrap();
    assert_eq!(
        resolver.resolve("https://example.com/api/x"),
        Ok(vec!["second".to_string(), "first".to_string()])
    );
}

#[test]
fn protocol_beats_prefix_and_pattern() {
    let manifests = vec![
        manifest("by-prefix", &[], &["ipfs://bafy"], &[]),
        manifest("by-pattern", &[], &[], &["^ipfs://"]),
        manifest("by-protocol", &["ipfs"], &[], &[]),
        manifest("also-protocol", &["ipfs", "ipns"], &[], &[]),
    ];
    let resolver = Resolver::try_from_manifests(&manifests).unwrap();
    assert_eq!(
        resolver.resolve("ipfs://bafybeigdyrzt"),
        Ok(vec!["by-protocol".to_string(), "also-protocol".to_string()])
    );
}

#[test]
fn pattern_is_tried_last() {
    let manifests = vec![
        manifest("numbers", &[], &[], &["/items/[0-9]+$"]),
        manifest("words", &[], &[], &["/items/[a-z]+$", "/things/"]),
        manifest("prefix", &[], &["https://example.org/other/"], &[]),
    ];
    let resolver = Resolver::try_from_manifests(&manifests).unwrap();
    assert_eq!(
        resolver.resolve("https://example.org/items/42"),
        Ok(vec!["numbers".to_string()])
    );
    assert_eq!(
        resolver.resolve("https://example.org/things/x"),
        Ok(vec!["words".to_string()])
    );
    assert_eq!(
        resolver.resolve("https://example.org/other/items/42"),
        Ok(vec!["prefix".to_string()])
    );
}

#[test]
fn a_module_is_named_once() {
    let manifests = vec![
        manifest("twice", &["near"], &[], &[]),
        manifest("other", &["near"], &[], &[]),
        manifest("twice", &["near"], &[], &[]),
    ];
    let resolver = Resolver::try_from_manifests(&manifests).unwrap();
    assert_eq!(
        resolver.resolve("near://testnet/1"),
        Ok(vec!["twice".to_string(), "other".to_string()])
    );
}

#[test]
fn nothing_matches_gives_no_match() {
    let manifests = vec![
        manifest("site", &["ftp"], &["https://example.com/"], &["^mailto:"]),
    ];
    let resolver = Resolver::try_from_manifests(&manifests).unwrap();
    assert_eq!(resolver.resolve("https://example.org/"), Err(ResolveError::NoMatch));
    assert_eq!(resolver.resolve("no scheme at all"), Err(ResolveError::NoMatch));
    let empty = ResolverBuilder::new().build();
    assert_eq!(empty.len(), 0);
    assert_eq!(empty.resolve("https://example.org/"), Err(ResolveError::NoMatch));
}

#[test]
fn a_bad_pattern_is_found_when_the_index_is_built() {
    let good = manifest("good", &["https"], &[], &[]);
    let bad = manifest("bad", &["https"], &[], &["foo(bar"]);
    assert_eq!(bad.validate(), Err(ManifestError::InvalidPattern(0)));
    assert_eq!(good.validate(), Ok(()));
    assert!(matches!(
        Resolver::try_from_manifests(&vec![good.clone(), bad.clone()]),
        Err(ResolveError::InvalidManifest)
    ));
    assert_eq!(
        resolve("https://example.org/", &vec![good.clone(), bad.clone()]),
        Err(ResolveError::InvalidManifest)
    );

    let mut builder = ResolverBuilder::new();
    assert_eq!(builder.insert(&bad), Err(ResolveError::InvalidManifest));
    assert_eq!(builder.insert(&good), Ok(()));
    let resolver = builder.build();
    assert_eq!(resolver.len(), 1);
    assert_eq!(resolver.resolve("https://example.org/"), Ok(vec!["good".to_string()]));
}

#[test]
fn malformed_manifests_are_skipped_one_by_one() {
    let manifests = vec![
        manifest("Upper", &["https"], &[], &[]),
        manifest("one", &["https"], &[], &[]),
        manifest("", &["https"], &[], &[]),
        manifest("two", &["https"], &[], &["a{2,1}"]),
        manifest("three-3", &["https"], &[], &["a{1,2}"]),
    ];
    assert_eq!(manifests[0].validate(), Err(ManifestError::InvalidName));
    assert_eq!(manifests[2].validate(), Err(ManifestError::InvalidName));
    let mut builder = ResolverBuilder::new();
    let skipped = builder.insert_all(&manifests);
    assert_eq!(skipped, vec![0, 2, 3]);
    let resolver = builder.build();
    assert_eq!(resolver.len(), 2);
    assert_eq!(
        resolver.resolve("https://example.org/"),
        Ok(vec!["one".to_string(), "three-3".to_string()])
    );
}

#[test]
fn resolve_url_normalizes_first() {
    let manifests = vec![
        manifest("site", &[], &["https://example.com/"], &[]),
        manifest("api", &[], &["https://example.com/api/"], &[]),
    ];
    assert_eq!(
        resolve("  HTTPS://WWW.Example.COM/api/x \n", &manifests),
        Ok(vec!["api".to_string()])
    );
    assert_eq!(
        resolve("https://example.com/API/x", &manifests),
        Ok(vec!["site".to_string()])
    );
    assert_eq!(resolve("example.com/api/x", &manifests), Err(ResolveError::NoMatch));
    let resolver = Resolver::try_from_manifests(&manifests).unwrap();
    assert_eq!(
        resolver.resolve_url(" https://WWW.example.com/ "),
        Ok(vec!["site".to_string()])
    );
    assert_eq!(resolver.resolve(" https://WWW.example.com/ "), Err(ResolveError::NoMatch));
}

#[test]
fn resolve_exit_codes() {
    assert_eq!(exit_code(ResolveError::NoMatch), 64);
    assert_eq!(exit_code(ResolveError::InvalidManifest), 65);
}
