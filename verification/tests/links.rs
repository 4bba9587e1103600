use asimov_module_cli::links::{best_link, rate_link, score_link, sort_links, LinkParts, TOP_SCORE};

fn strings(items: &[&str]) -> Vec<String> {
    items.iter().map(|s| s.to_string()).collect()
}

#[test]
fn links_that_are_no_urls_score_nothing() {
    assert_eq!(rate_link("not a url", "apify"), 0);
    assert_eq!(rate_link("", "apify"), 0);
    assert_eq!(rate_link("github.com/asimov-modules/asimov-apify-module", "apify"), 0);
    assert_eq!(rate_link("mailto:someone@example.org", "apify"), 0);
    assert_eq!(rate_link("data:text/plain,github.com/asimov-modules/", "apify"), 0);
}

#[test]
fn link_scores() {
    assert_eq!(rate_link("https://example.org/", "apify"), 1);
    assert_eq!(rate_link("https://github.com/someone/project", "apify"), 3);
    assert_eq!(rate_link("https://crates.io/crates/serde", "apify"), 2);
    assert_eq!(rate_link("https://pypi.org/project/numpy/", "apify"), 2);
    assert_eq!(rate_link("https://rubygems.org/gems/rake", "apify"), 2);
    assert_eq!(rate_link("https://www.npmjs.com/package/left-pad", "apify"), 2);
    assert_eq!(rate_link("https://crates.io/crates/asimov-apify-module", "apify"), 7);
    assert_eq!(rate_link("https://crates.io/crates/asimov-other-module", "apify"), 4);
    assert_eq!(
        rate_link("https://github.com/asimov-modules/asimov-apify-module", "apify"),
        12
    );
    assert_eq!(
        rate_link("https://github.com/asimov-modules/asimov-other-module", "apify"),
        9
    );
    assert_eq!(rate_link("https://github.com/asimov-modules/", "apify"), 9);
    assert_eq!(
        rate_link("https://example.org/?q=github.com/asimov-modules/", "apify"),
        6
    );
    assert!(rate_link("https://github.com/asimov-modules/asimov-apify-module", "apify") <= TOP_SCORE);
}

#[test]
fn host_is_read_from_the_parsed_url() {
    assert_eq!(rate_link("https://GitHub.COM/someone/project", "apify"), 3);
    assert_eq!(rate_link("https://user@github.com:443/someone/project", "apify"), 3);
    assert_eq!(rate_link("https://example.org/github.com", "apify"), 1);
}

#[test]
fn score_from_given_parts() {
    let parts = Some(LinkParts {
        host: Some("github.com".to_string()),
        path: "/asimov-modules/asimov-apify-module".to_string(),
    });
    assert_eq!(score_link("https://github.com/asimov-modules/asimov-apify-module", &parts, "apify"), 12);
    assert_eq!(score_link("unrelated text", &parts, "apify"), 7);
    assert_eq!(score_link("unrelated text", &parts, "other"), 4);
    let no_host = Some(LinkParts { host: None, path: "/asimov-apify-module".to_string() });
    assert_eq!(score_link("https://github.com/asimov-modules/", &no_host, "apify"), 0);
    assert_eq!(score_link("https://github.com/asimov-modules/", &None, "apify"), 0);
}

#[test]
fn links_are_shown_by_score() {
    let mut links = strings(&[
        "not a url",
        "https://example.org/docs",
        "https://crates.io/crates/asimov-apify-module",
        "https://github.com/asimov-modules/asimov-apify-module",
        "https://apify.com/",
        "https://pypi.org/project/asimov-apify-module/",
        "also not a url",
    ]);
    sort_links("apify", &mut links);
    assert_eq!(
        links,
        strings(&[
            "https://github.com/asimov-modules/asimov-apify-module",
            "https://crates.io/crates/asimov-apify-module",
            "https://pypi.org/project/asimov-apify-module/",
            "https://example.org/docs",
            "https://apify.com/",
            "not a url",
            "also not a url",
        ])
    );
}

#[test]
fn sorting_keeps_every_link() {
    let mut links = strings(&["b", "https://b.example/", "a", "https://a.example/", "a"]);
    sort_links("x", &mut links);
    assert_eq!(links, strings(&["https://b.example/", "https://a.example/", "b", "a", "a"]));
    let mut none: Vec<String> = Vec::new();
    sort_links("x", &mut none);
    assert!(none.is_empty());
}

#[test]
fn best_link_is_the_first_shown() {
    let links = strings(&[
        "https://example.org/docs",
        "https://github.com/asimov-modules/asimov-apify-module",
    ]);
    assert_eq!(
        best_link("apify", &links),
        Some("https://github.com/asimov-modules/asimov-apify-module".to_string())
    );
    assert_eq!(best_link("apify", &strings(&["nothing"])), Some("nothing".to_string()));
    assert_eq!(best_link("apify", &Vec::new()), None);
}
