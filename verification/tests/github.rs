use asimov_module_cli::registry::github::{
    archive_format, candidate_names, check_digest, checksum_outcome, checksum_url,
    detect_platform, files_to_install, find_matching_asset, latest_release_outcome,
    latest_release_url, libc_name, manifest_file_name, manifest_url, release_outcome,
    release_url, repository_of, verify_checksum, version_tag, Arch, ArchiveFormat,
    ChecksumVerifier, EntryKind, ErrorKind, InstallError, Libc, Os, PlatformTag, Release,
    ReleaseAsset, UnpackedEntry, EXECUTABLE_MODE,
};

const ABC_SHA256: &str = "ba7816bf8f01cfea414140de5dae2223b00361a396177a9cb410ff61f20015ad";
const EMPTY_SHA256: &str = "e3b0c44298fc1c149afbf4c8996fb92427ae41e4649b934ca495991b7852b855";

fn asset(name: &str) -> ReleaseAsset {
    ReleaseAsset {
        name: name.to_string(),
        download_url: format!("https://example.org/download/{name}"),
    }
}

fn linux_musl() -> PlatformTag {
    PlatformTag { os: Os::Linux, arch: Arch::X86, libc: Some(Libc::Musl) }
}

#[test]
fn detect_platform_classifies_targets() {
    assert_eq!(detect_platform("linux", "x86_64", "musl"), linux_musl());
    assert_eq!(
        detect_platform("linux", "aarch64", "gnu"),
        PlatformTag { os: Os::Linux, arch: Arch::Arm, libc: Some(Libc::Gnu) }
    );
    assert_eq!(
        detect_platform("macos", "arm", ""),
        PlatformTag { os: Os::Macos, arch: Arch::Arm, libc: None }
    );
    assert_eq!(
        detect_platform("windows", "x86_64", "msvc"),
        PlatformTag { os: Os::Windows, arch: Arch::X86, libc: None }
    );
}

#[test]
fn detect_platform_gives_unknown_for_the_rest() {
    assert_eq!(
        detect_platform("freebsd", "riscv64", "uclibc"),
        PlatformTag { os: Os::Unknown, arch: Arch::Unknown, libc: None }
    );
    assert_eq!(detect_platform("Linux", "x86", "GNU").os, Os::Unknown);
    assert_eq!(detect_platform("Linux", "x86", "GNU").arch, Arch::Unknown);
}

#[test]
fn platform_words() {
    let windows = PlatformTag { os: Os::Windows, arch: Arch::X86, libc: None };
    assert_eq!(windows.os_name(), "windows");
    assert_eq!(windows.arch_name(), "x86");
    assert_eq!(linux_musl().os_name(), "linux");
    assert_eq!(linux_musl().arch_name(), "x86");
    let mac = PlatformTag { os: Os::Macos, arch: Arch::Arm, libc: None };
    assert_eq!(mac.os_name(), "macos");
    assert_eq!(mac.arch_name(), "arm");
    assert_eq!(libc_name(Libc::Gnu), "gnu");
    assert_eq!(libc_name(Libc::Musl), "musl");
}

#[test]
fn candidates_go_from_specific_to_generic() {
    assert_eq!(
        candidate_names("apify", &linux_musl()),
        vec![
            "apify-linux-x86-musl.tar.gz",
            "apify-linux-x86-musl.zip",
            "apify-linux-x86.tar.gz",
            "apify-linux-x86.zip",
        ]
    );
    let mac = PlatformTag { os: Os::Macos, arch: Arch::Arm, libc: None };
    assert_eq!(
        candidate_names("rdf", &mac),
        vec!["rdf-macos-arm.tar.gz", "rdf-macos-arm.zip"]
    );
    let windows = PlatformTag { os: Os::Windows, arch: Arch::X86, libc: None };
    assert_eq!(
        candidate_names("rdf", &windows),
        vec!["rdf-windows-x86.tar.gz", "rdf-windows-x86.zip"]
    );
}

#[test]
fn unknown_platform_has_no_candidates() {
    let no_os = PlatformTag { os: Os::Unknown, arch: Arch::X86, libc: Some(Libc::Gnu) };
    let no_arch = PlatformTag { os: Os::Linux, arch: Arch::Unknown, libc: None };
    assert!(candidate_names("apify", &no_os).is_empty());
    assert!(candidate_names("apify", &no_arch).is_empty());
    let assets = vec![asset("apify-unknown-x86-gnu.tar.gz")];
    assert_eq!(find_matching_asset(&assets, "apify", &no_os), None);
}

#[test]
fn generic_asset_is_taken_when_no_specific_one_exists() {
    let assets = vec![asset("apify-linux-x86.tar.gz")];
    assert_eq!(find_matching_asset(&assets, "apify", &linux_musl()), Some(0));
}

#[test]
fn generic_asset_of_a_module_called_module() {
    let assets = vec![asset("module-linux-x86.tar.gz")];
    assert_eq!(find_matching_asset(&assets, "module", &linux_musl()), Some(0));
    assert_eq!(find_matching_asset(&assets, "apify", &linux_musl()), None);
    let old_style = vec![asset("asimov-module-module-linux-x86.tar.gz")];
    assert_eq!(find_matching_asset(&old_style, "module", &linux_musl()), None);
}

#[test]
fn specific_asset_is_preferred() {
    let assets = vec![
        asset("apify-linux-x86.zip"),
        asset("apify-linux-x86.tar.gz"),
        asset("apify-linux-x86-musl.zip"),
        asset("apify-linux-x86-gnu.tar.gz"),
    ];
    assert_eq!(find_matching_asset(&assets, "apify", &linux_musl()), Some(2));
    let gnu = PlatformTag { os: Os::Linux, arch: Arch::X86, libc: Some(Libc::Gnu) };
    assert_eq!(find_matching_asset(&assets, "apify", &gnu), Some(3));
    let bare = PlatformTag { os: Os::Linux, arch: Arch::X86, libc: None };
    assert_eq!(find_matching_asset(&assets, "apify", &bare), Some(1));
}

#[test]
fn first_of_equally_named_assets_is_taken() {
    let assets = vec![
        asset("README.md"),
        asset("apify-linux-x86.zip"),
        asset("apify-linux-x86.zip"),
    ];
    assert_eq!(find_matching_asset(&assets, "apify", &linux_musl()), Some(1));
}

#[test]
fn no_asset_for_the_platform() {
    let assets = vec![
        asset("apify-macos-arm.tar.gz"),
        asset("other-linux-x86.tar.gz"),
        asset("apify-linux-x86.tar.xz"),
    ];
    assert_eq!(find_matching_asset(&assets, "apify", &linux_musl()), None);
    assert_eq!(find_matching_asset(&Vec::new(), "apify", &linux_musl()), None);
}

#[test]
fn addresses() {
    assert_eq!(repository_of("apify"), "asimov-apify-module");
    assert_eq!(
        latest_release_url("apify"),
        "https://api.github.com/repos/asimov-modules/asimov-apify-module/releases/latest"
    );
    assert_eq!(
        release_url("apify", "0.1.1"),
        "https://api.github.com/repos/asimov-modules/asimov-apify-module/releases/tags/0.1.1"
    );
    assert_eq!(
        manifest_url("apify", "0.1.1"),
        "https://raw.githubusercontent.com/asimov-modules/asimov-apify-module/0.1.1/.asimov/module.yaml"
    );
    assert_eq!(manifest_file_name("apify"), "apify.yaml");
    assert_eq!(
        checksum_url(&asset("a.tar.gz")),
        "https://example.org/download/a.tar.gz.sha256"
    );
}

#[test]
fn latest_release_outcomes() {
    assert_eq!(latest_release_outcome(200, Some("1.2.3".to_string())), Ok("1.2.3".to_string()));
    assert_eq!(latest_release_outcome(200, None), Err(InstallError::Data));
    assert_eq!(
        latest_release_outcome(404, Some("1.2.3".to_string())),
        Err(InstallError::NoReleaseFound)
    );
    assert_eq!(latest_release_outcome(201, Some("1.2.3".to_string())), Err(InstallError::Network));
    assert_eq!(latest_release_outcome(500, None), Err(InstallError::Network));
}

#[test]
fn release_outcomes() {
    let release = Release { version_tag: "1.0.0".to_string(), assets: vec![asset("a.zip")] };
    let read = release_outcome(204, Some(release)).unwrap();
    assert_eq!(read.version_tag, "1.0.0");
    assert_eq!(read.assets.len(), 1);
    assert!(matches!(release_outcome(200, None), Err(InstallError::Data)));
    assert!(matches!(release_outcome(404, None), Err(InstallError::NoReleaseFound)));
    assert!(matches!(release_outcome(199, None), Err(InstallError::Network)));
    assert!(matches!(release_outcome(300, None), Err(InstallError::Network)));
}

#[test]
fn checksum_outcomes() {
    assert_eq!(checksum_outcome(404, "not found"), Ok(None));
    assert_eq!(
        checksum_outcome(200, "  abc123  file.tar.gz\n"),
        Ok(Some("abc123  file.tar.gz".to_string()))
    );
    assert_eq!(checksum_outcome(299, ""), Ok(Some(String::new())));
    assert_eq!(checksum_outcome(403, "abc123"), Err(InstallError::Network));
    assert_eq!(checksum_outcome(503, "abc123"), Err(InstallError::Network));
}

#[test]
fn digest_is_held_against_the_first_token() {
    assert_eq!(check_digest(ABC_SHA256, ABC_SHA256), Ok(()));
    assert_eq!(check_digest(ABC_SHA256, &format!("{ABC_SHA256}  asset.tar.gz")), Ok(()));
    assert_eq!(check_digest(ABC_SHA256, &format!("\t{ABC_SHA256}\n")), Ok(()));
    assert_eq!(
        check_digest(ABC_SHA256, &format!("asset.tar.gz {ABC_SHA256}")),
        Err(InstallError::ChecksumMismatch)
    );
    assert_eq!(
        check_digest(ABC_SHA256, &ABC_SHA256.to_uppercase()),
        Err(InstallError::ChecksumMismatch)
    );
    assert_eq!(check_digest(ABC_SHA256, ""), Err(InstallError::ChecksumMismatch));
    assert_eq!(check_digest("", ""), Ok(()));
    assert_eq!(check_digest(" ", " "), Ok(()));
    assert_eq!(check_digest("", " "), Err(InstallError::ChecksumMismatch));
}

#[test]
fn checksum_of_known_data() {
    assert_eq!(verify_checksum(b"abc", ABC_SHA256), Ok(()));
    assert_eq!(verify_checksum(b"", EMPTY_SHA256), Ok(()));
    assert_eq!(verify_checksum(b"abc", &format!("{ABC_SHA256} *abc.bin\n")), Ok(()));
    assert_eq!(verify_checksum(b"abd", ABC_SHA256), Err(InstallError::ChecksumMismatch));
    assert_eq!(verify_checksum(b"abc", "abc"), Err(InstallError::ChecksumMismatch));
}

#[test]
fn corrupted_checksum_is_a_mismatch() {
    let mut corrupted = ABC_SHA256.to_string();
    corrupted.replace_range(0..1, "c");
    let checked = verify_checksum(b"abc", &corrupted);
    assert_eq!(checked, Err(InstallError::ChecksumMismatch));
    assert_eq!(checked.unwrap_err().kind(), ErrorKind::IntegrityError);
    assert!(!checked.unwrap_err().allows_fallback());
}

#[test]
fn digest_is_written_in_64_lower_case_hex_digits() {
    for data in [&b""[..], &b"abc"[..], &[0u8; 1000][..], &[255u8; 3][..]] {
        let mut verifier = ChecksumVerifier::new();
        verifier.update(data);
        let hex = verifier.digest();
        assert_eq!(hex.chars().count(), 64);
        assert!(hex.chars().all(|c| matches!(c, '0'..='9' | 'a'..='f')));
    }
}

#[test]
fn checksum_without_a_token_never_matches() {
    assert_eq!(verify_checksum(b"abc", ""), Err(InstallError::ChecksumMismatch));
    assert_eq!(verify_checksum(b"abc", " \n\t"), Err(InstallError::ChecksumMismatch));
}

#[test]
fn version_tag_is_the_tag_or_else_the_name() {
    let some = |s: &str| Some(s.to_string());
    assert_eq!(version_tag(some("v1.2.3"), some("Spring release")), some("v1.2.3"));
    assert_eq!(version_tag(some("v1.2.3"), None), some("v1.2.3"));
    assert_eq!(version_tag(None, some("1.2.3")), some("1.2.3"));
    assert_eq!(version_tag(None, None), None);
}

#[test]
fn checksum_of_a_file_read_in_pieces() {
    let mut verifier = ChecksumVerifier::new();
    verifier.update(b"a");
    verifier.update(b"");
    verifier.update(b"bc");
    assert_eq!(verifier.digest(), ABC_SHA256);

    let mut verifier = ChecksumVerifier::new();
    verifier.update(b"ab");
    verifier.update(b"c");
    assert_eq!(verifier.verify(ABC_SHA256), Ok(()));

    let mut verifier = ChecksumVerifier::new();
    verifier.update(b"c");
    verifier.update(b"ab");
    assert_eq!(verifier.verify(ABC_SHA256), Err(InstallError::ChecksumMismatch));

    assert_eq!(ChecksumVerifier::new().digest(), EMPTY_SHA256);
}

#[test]
fn error_kinds() {
    assert_eq!(InstallError::NoReleaseFound.kind(), ErrorKind::NotFound);
    assert_eq!(InstallError::NoMatchingAsset.kind(), ErrorKind::UnsupportedPlatform);
    assert_eq!(InstallError::ChecksumMismatch.kind(), ErrorKind::IntegrityError);
    assert_eq!(InstallError::UnsupportedFormat.kind(), ErrorKind::DataError);
    assert_eq!(InstallError::Network.kind(), ErrorKind::NetworkError);
    assert_eq!(InstallError::Data.kind(), ErrorKind::DataError);
    assert_eq!(InstallError::Io.kind(), ErrorKind::IoError);
    assert!(InstallError::NoReleaseFound.allows_fallback());
    assert!(InstallError::NoMatchingAsset.allows_fallback());
    assert!(InstallError::Network.allows_fallback());
}

#[test]
fn archive_formats() {
    assert_eq!(archive_format("x-linux-x86.tar.gz"), Ok(ArchiveFormat::TarGz));
    assert_eq!(archive_format("/tmp/dir/asset.zip"), Ok(ArchiveFormat::Zip));
    assert_eq!(archive_format(".zip"), Ok(ArchiveFormat::Zip));
    assert_eq!(archive_format("asset.tar.xz"), Err(InstallError::UnsupportedFormat));
    assert_eq!(archive_format("asset.tar.gz.sha256"), Err(InstallError::UnsupportedFormat));
    assert_eq!(archive_format("asset.ZIP"), Err(InstallError::UnsupportedFormat));
    assert_eq!(archive_format("zip"), Err(InstallError::UnsupportedFormat));
    assert_eq!(archive_format(""), Err(InstallError::UnsupportedFormat));
}

#[test]
fn only_regular_files_are_installed() {
    let entries = vec![
        UnpackedEntry { name: "asimov-apify-fetcher".to_string(), kind: EntryKind::File },
        UnpackedEntry { name: "docs".to_string(), kind: EntryKind::Directory },
        UnpackedEntry { name: "link".to_string(), kind: EntryKind::Other },
        UnpackedEntry { name: "asimov-apify-importer".to_string(), kind: EntryKind::File },
    ];
    assert_eq!(
        files_to_install(&entries),
        vec!["asimov-apify-fetcher", "asimov-apify-importer"]
    );
    assert!(files_to_install(&Vec::new()).is_empty());
    assert_eq!(EXECUTABLE_MODE, 0o755);
}
