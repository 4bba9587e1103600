use asimov_module_cli::normalization::{normalize_or_keep, normalize_url, NormalizeError};

#[test]
fn normalize_lowers_scheme_and_host() {
    assert_eq!(
        normalize_url("HTTPS://Example.ORG/Path?Q=1#Frag"),
        Ok("https://example.org/Path?Q=1#Frag".to_string())
    );
}

#[test]
fn normalize_trims_white_space() {
    assert_eq!(
        normalize_url(" \t https://example.org/a b \u{3000}\n"),
        Ok("https://example.org/a b".to_string())
    );
}

#[test]
fn normalize_drops_www() {
    assert_eq!(normalize_url("http://www.example.com"), Ok("http://example.com".to_string()));
    assert_eq!(normalize_url("http://WWW.example.com/www."), Ok("http://example.com/www.".to_string()));
    assert_eq!(normalize_url("http://wwwexample.com/"), Ok("http://wwwexample.com/".to_string()));
}

#[test]
fn normalize_keeps_user_information() {
    assert_eq!(
        normalize_url("ftp://User:P@ss@www.Files.example:21/Dir"),
        Ok("ftp://User:P@ss@files.example:21/Dir".to_string())
    );
}

#[test]
fn normalize_without_authority_keeps_the_rest() {
    assert_eq!(normalize_url("MailTo:Someone@Example.org"), Ok("mailto:Someone@Example.org".to_string()));
    assert_eq!(normalize_url("urn:"), Ok("urn:".to_string()));
}

#[test]
fn normalize_fails_without_scheme() {
    assert_eq!(normalize_url("example.org/path"), Err(NormalizeError::MissingScheme));
    assert_eq!(normalize_url(""), Err(NormalizeError::MissingScheme));
    assert_eq!(normalize_url("   "), Err(NormalizeError::MissingScheme));
    assert_eq!(normalize_url(":nothing"), Err(NormalizeError::MissingScheme));
    assert_eq!(normalize_url("1http://example.org"), Err(NormalizeError::MissingScheme));
    assert_eq!(normalize_url("ht tp://example.org"), Err(NormalizeError::MissingScheme));
    assert_eq!(normalize_url("/a:b"), Err(NormalizeError::MissingScheme));
}

#[test]
fn normalize_or_keep_falls_back_to_the_given_text() {
    assert_eq!(normalize_or_keep("  example.org/path "), "  example.org/path ");
    assert_eq!(normalize_or_keep(" IPFS://Bafy "), "ipfs://bafy");
}
