//! Installing a module from the releases that its repository publishes.
//!
//! Everything here computes: which platform this is, which asset of a release
//! fits it, where a release, a manifest or a checksum is found, whether a
//! digest is the expected one, which of the unpacked files are installed.
//! Fetching and writing is left to the caller.

use crate::registry::digest::{
    absorbed, feed, finish, is_digest_text, is_hex_digit, sha256_hex, start, Sha256Stream,
};
use crate::text::{
    chars_of, ends_with, first_token, first_token_of, is_space, same_chars, same_text, string_of,
    trim, trimmed, views,
};
use vstd::prelude::*;

verus! {

/// What can go wrong while a module is installed.
#[derive(Clone, Copy, Debug, PartialEq, Eq, Structural)]
pub enum InstallError {
    /// The module has never published a release.
    NoReleaseFound,
    /// The release has no asset for this platform.
    NoMatchingAsset,
    /// The downloaded file does not have the published digest.
    ChecksumMismatch,
    /// The asset is neither a `.tar.gz` nor a `.zip` archive.
    UnsupportedFormat,
    /// A request failed or was answered with an error status.
    Network,
    /// A document that was fetched could not be read.
    Data,
    /// The local file system refused an operation.
    Io,
}

/// The classes into which failures fall.
#[derive(Clone, Copy, Debug, PartialEq, Eq, Structural)]
pub enum ErrorKind {
    NotFound,
    NetworkError,
    DataError,
    IntegrityError,
    UnsupportedPlatform,
    IoError,
}

impl InstallError {
    pub open spec fn spec_kind(self) -> ErrorKind {
        match self {
            InstallError::NoReleaseFound => ErrorKind::NotFound,
            InstallError::NoMatchingAsset => ErrorKind::UnsupportedPlatform,
            InstallError::ChecksumMismatch => ErrorKind::IntegrityError,
            InstallError::UnsupportedFormat => ErrorKind::DataError,
            InstallError::Network => ErrorKind::NetworkError,
            InstallError::Data => ErrorKind::DataError,
            InstallError::Io => ErrorKind::IoError,
        }
    }

    /// The class of the failure.
    pub fn kind(&self) -> (kind: ErrorKind)
        ensures
            kind == self.spec_kind(),
    {
        match self {
            InstallError::NoReleaseFound => ErrorKind::NotFound,
            InstallError::NoMatchingAsset => ErrorKind::UnsupportedPlatform,
            InstallError::ChecksumMismatch => ErrorKind::IntegrityError,
            InstallError::UnsupportedFormat => ErrorKind::DataError,
            InstallError::Network => ErrorKind::NetworkError,
            InstallError::Data => ErrorKind::DataError,
            InstallError::Io => ErrorKind::IoError,
        }
    }

    /// Whether the module may still be installed through its package
    /// manager after this failure. A wrong digest is final.
    pub fn allows_fallback(&self) -> (allowed: bool)
        ensures
            allowed == (*self != InstallError::ChecksumMismatch),
    {
        match self {
            InstallError::ChecksumMismatch => false,
            _ => true,
        }
    }
}

#[derive(Clone, Copy, Debug, PartialEq, Eq, Structural)]
pub enum Os {
    Linux,
    Macos,
    Windows,
    Unknown,
}

#[derive(Clone, Copy, Debug, PartialEq, Eq, Structural)]
pub enum Arch {
    X86,
    Arm,
    Unknown,
}

#[derive(Clone, Copy, Debug, PartialEq, Eq, Structural)]
pub enum Libc {
    Gnu,
    Musl,
}

/// The platform that assets are chosen for.
#[derive(Clone, Copy, Debug, PartialEq, Eq, Structural)]
pub struct PlatformTag {
    pub os: Os,
    pub arch: Arch,
    pub libc: Option<Libc>,
}

/// A file attached to a release.
#[derive(Clone, Debug)]
pub struct ReleaseAsset {
    pub name: String,
    pub download_url: String,
}

/// A published release.
#[derive(Clone, Debug)]
pub struct Release {
    pub version_tag: String,
    pub assets: Vec<ReleaseAsset>,
}

pub open spec fn os_of(target_os: Seq<char>) -> Os {
    if target_os == "linux"@ {
        Os::Linux
    } else if target_os == "macos"@ {
        Os::Macos
    } else if target_os == "windows"@ {
        Os::Windows
    } else {
        Os::Unknown
    }
}

pub open spec fn arch_of(target_arch: Seq<char>) -> Arch {
    if target_arch == "x86_64"@ {
        Arch::X86
    } else if target_arch == "aarch64"@ || target_arch == "arm"@ {
        Arch::Arm
    } else {
        Arch::Unknown
    }
}

pub open spec fn libc_of(target_env: Seq<char>) -> Option<Libc> {
    if target_env == "musl"@ {
        Some(Libc::Musl)
    } else if target_env == "gnu"@ {
        Some(Libc::Gnu)
    } else {
        None
    }
}

/// The platform tag of a target, given by the names under which the
/// compiler knows its operating system, processor and C library. What
/// cannot be classified is `Unknown`, or no C library.
pub fn detect_platform(target_os: &str, target_arch: &str, target_env: &str) -> (tag: PlatformTag)
    ensures
        tag == (PlatformTag {
            os: os_of(target_os@),
            arch: arch_of(target_arch@),
            libc: libc_of(target_env@),
        }),
{
    let os = if same_text(target_os, "linux") {
        Os::Linux
    } else if same_text(target_os, "macos") {
        Os::Macos
    } else if same_text(target_os, "windows") {
        Os::Windows
    } else {
        Os::Unknown
    };
    let arch = if same_text(target_arch, "x86_64") {
        Arch::X86
    } else if same_text(target_arch, "aarch64") || same_text(target_arch, "arm") {
        Arch::Arm
    } else {
        Arch::Unknown
    };
    let libc = if same_text(target_env, "musl") {
        Some(Libc::Musl)
    } else if same_text(target_env, "gnu") {
        Some(Libc::Gnu)
    } else {
        None
    };
    PlatformTag { os, arch, libc }
}

impl PlatformTag {
    /// Whether assets can be published for this platform at all.
    pub open spec fn is_known(self) -> bool {
        self.os != Os::Unknown && self.arch != Arch::Unknown
    }

    /// The word for the operating system in asset names.
    pub open spec fn os_word(self) -> Seq<char> {
        match self.os {
            Os::Linux => "linux"@,
            Os::Macos => "macos"@,
            Os::Windows => "windows"@,
            Os::Unknown => "unknown"@,
        }
    }

    /// The word for the processor in asset names.
    pub open spec fn arch_word(self) -> Seq<char> {
        match self.arch {
            Arch::Arm => "arm"@,
            Arch::X86 => "x86"@,
            Arch::Unknown => "unknown"@,
        }
    }

    pub fn os_name(&self) -> (word: &'static str)
        ensures
            word@ == self.os_word(),
    {
        match self.os {
            Os::Linux => "linux",
            Os::Macos => "macos",
            Os::Windows => "windows",
            Os::Unknown => "unknown",
        }
    }

    pub fn arch_name(&self) -> (word: &'static str)
        ensures
            word@ == self.arch_word(),
    {
        match self.arch {
            Arch::Arm => "arm",
            Arch::X86 => "x86",
            Arch::Unknown => "unknown",
        }
    }
}

pub open spec fn libc_word(libc: Libc) -> Seq<char> {
    match libc {
        Libc::Gnu => "gnu"@,
        Libc::Musl => "musl"@,
    }
}

pub fn libc_name(libc: Libc) -> (word: &'static str)
    ensures
        word@ == libc_word(libc),
{
    match libc {
        Libc::Gnu => "gnu",
        Libc::Musl => "musl",
    }
}

/// The name of the repository, and of the main program, of a module.
pub open spec fn repository_name(module: Seq<char>) -> Seq<char> {
    "asimov-"@ + module + "-module"@
}

/// The beginning that the names of all assets of a module for one platform
/// share: `<module>-<os>-<arch>`.
pub open spec fn asset_stem(module: Seq<char>, platform: PlatformTag) -> Seq<char> {
    module + "-"@ + platform.os_word() + "-"@ + platform.arch_word()
}

/// The asset names that fit `platform`, most wanted first: those that name
/// the C library before those that do not, and of each kind the `.tar.gz`
/// before the `.zip`. No asset fits a platform that is not known.
pub open spec fn candidates(module: Seq<char>, platform: PlatformTag) -> Seq<Seq<char>> {
    let stem = asset_stem(module, platform);
    if !platform.is_known() {
        Seq::empty()
    } else {
        match platform.libc {
            Some(libc) => seq![
                stem + "-"@ + libc_word(libc) + ".tar.gz"@,
                stem + "-"@ + libc_word(libc) + ".zip"@,
                stem + ".tar.gz"@,
                stem + ".zip"@,
            ],
            None => seq![stem + ".tar.gz"@, stem + ".zip"@],
        }
    }
}

/// `"asimov-<module>-module"`.
pub fn repository_of(module_name: &str) -> (name: String)
    ensures
        name@ == repository_name(module_name@),
{
    let mut name = String::from_str("asimov-");
    name.append(module_name);
    name.append("-module");
    name
}

fn stem_of(module_name: &str, platform: &PlatformTag) -> (stem: String)
    ensures
        stem@ == asset_stem(module_name@, *platform),
{
    let mut stem = String::from_str(module_name);
    stem.append("-");
    stem.append(platform.os_name());
    stem.append("-");
    stem.append(platform.arch_name());
    stem
}

fn with_suffix(stem: &String, suffix: &str) -> (name: String)
    ensures
        name@ == stem@ + suffix@,
{
    let mut name = stem.clone();
    name.append(suffix);
    name
}

/// The asset names that fit `platform`, most wanted first.
pub fn candidate_names(module_name: &str, platform: &PlatformTag) -> (names: Vec<String>)
    ensures
        views(names@) == candidates(module_name@, *platform),
{
    let mut names: Vec<String> = Vec::new();
    match (platform.os, platform.arch) {
        (Os::Unknown, _) => {},
        (_, Arch::Unknown) => {},
        _ => {
            let stem = stem_of(module_name, platform);
            match platform.libc {
                Some(libc) => {
                    let mut specific = with_suffix(&stem, "-");
                    specific.append(libc_name(libc));
                    names.push(with_suffix(&specific, ".tar.gz"));
                    names.push(with_suffix(&specific, ".zip"));
                },
                None => {},
            }
            names.push(with_suffix(&stem, ".tar.gz"));
            names.push(with_suffix(&stem, ".zip"));
        },
    }
    assert(views(names@) =~= candidates(module_name@, *platform));
    names
}

/// The names of the assets, in order.
pub open spec fn asset_names(assets: Seq<ReleaseAsset>) -> Seq<Seq<char>> {
    Seq::new(assets.len(), |i: int| assets[i].name@)
}

/// The position of the first of the first `n` of `names` that is `name`, or
/// -1.
pub open spec fn first_named(names: Seq<Seq<char>>, name: Seq<char>, n: nat) -> int
    decreases n,
{
    if n == 0 {
        -1
    } else {
        let before = first_named(names, name, (n - 1) as nat);
        if before >= 0 {
            before
        } else if names[n - 1] == name {
            n - 1
        } else {
            -1
        }
    }
}

/// The position of the asset to take, given the names of the assets and the
/// names that are `wanted`: the first asset that bears the first of the
/// wanted names from position `from` on that any asset bears, or -1 where no
/// asset bears any of them.
pub open spec fn chosen_from(names: Seq<Seq<char>>, wanted: Seq<Seq<char>>, from: nat) -> int
    decreases wanted.len() - from,
{
    if from >= wanted.len() {
        -1
    } else {
        let here = first_named(names, wanted[from as int], names.len());
        if here >= 0 {
            here
        } else {
            chosen_from(names, wanted, from + 1)
        }
    }
}

/// The position of the asset that fits `platform` best among assets of the
/// given names, or -1.
pub open spec fn matching_asset(
    names: Seq<Seq<char>>,
    module: Seq<char>,
    platform: PlatformTag,
) -> int {
    chosen_from(names, candidates(module, platform), 0)
}

/// [`first_named`] is the position of the name, and the name does not occur
/// before it.
pub proof fn lemma_first_named(names: Seq<Seq<char>>, name: Seq<char>, n: nat)
    requires
        n <= names.len(),
    ensures
        -1 <= first_named(names, name, n) < n,
        first_named(names, name, n) >= 0 ==> names[first_named(names, name, n)] == name,
        forall|i: int|
            0 <= i < n && #[trigger] names[i] == name ==> 0 <= first_named(names, name, n) <= i,
    decreases n,
{
    if n > 0 {
        lemma_first_named(names, name, (n - 1) as nat);
    }
}

/// What [`chosen_from`] picks: an asset that bears one of the wanted names,
/// where no asset bears an earlier wanted name and no earlier asset bears
/// the same name. It picks none only where no asset bears a wanted name.
pub proof fn law_chosen_asset(names: Seq<Seq<char>>, wanted: Seq<Seq<char>>, from: nat)
    requires
        from <= wanted.len(),
    ensures
        -1 <= chosen_from(names, wanted, from) < names.len(),
        chosen_from(names, wanted, from) >= 0 ==> exists|c: int|
            {
                &&& from <= c < wanted.len()
                &&& names[chosen_from(names, wanted, from)] == #[trigger] wanted[c]
                &&& forall|i: int|
                    0 <= i < chosen_from(names, wanted, from) ==> #[trigger] names[i] != wanted[c]
                &&& forall|b: int, i: int|
                    from <= b < c && 0 <= i < names.len() ==> #[trigger] names[i]
                        != #[trigger] wanted[b]
            },
        chosen_from(names, wanted, from) == -1 ==> forall|c: int, i: int|
            from <= c < wanted.len() && 0 <= i < names.len() ==> #[trigger] names[i]
                != #[trigger] wanted[c],
    decreases wanted.len() - from,
{
    if from < wanted.len() {
        lemma_first_named(names, wanted[from as int], names.len());
        let here = first_named(names, wanted[from as int], names.len());
        if here >= 0 {
            assert(names[here] == wanted[from as int]);
        } else {
            law_chosen_asset(names, wanted, from + 1);
            let picked = chosen_from(names, wanted, from + 1);
            if picked >= 0 {
                let c = choose|c: int|
                    {
                        &&& from + 1 <= c < wanted.len()
                        &&& names[picked] == #[trigger] wanted[c]
                        &&& forall|i: int| 0 <= i < picked ==> #[trigger] names[i] != wanted[c]
                        &&& forall|b: int, i: int|
                            from + 1 <= b < c && 0 <= i < names.len() ==> #[trigger] names[i]
                                != #[trigger] wanted[b]
                    };
                assert(from <= c < wanted.len() && names[picked] == wanted[c]);
            }
        }
    }
}

proof fn lemma_first_named_found(names: Seq<Seq<char>>, name: Seq<char>, at: nat, n: nat)
    requires
        at < n <= names.len(),
        first_named(names, name, at) == -1,
        names[at as int] == name,
    ensures
        first_named(names, name, n) == at,
    decreases n,
{
    if n > at + 1 {
        lemma_first_named_found(names, name, at, (n - 1) as nat);
    }
}

/// The position of the first asset called `name`.
fn find_named(assets: &Vec<ReleaseAsset>, name: &Vec<char>) -> (at: Option<usize>)
    ensures
        match at {
            Some(i) => i == first_named(asset_names(assets@), name@, assets.len() as nat) && i
                < assets.len(),
            None => first_named(asset_names(assets@), name@, assets.len() as nat) == -1,
        },
{
    let mut i: usize = 0;
    while i < assets.len()
        invariant
            i <= assets.len(),
            first_named(asset_names(assets@), name@, i as nat) == -1,
        decreases assets.len() - i,
    {
        let asset_name = chars_of(assets[i].name.as_str());
        assert(asset_names(assets@)[i as int] == asset_name@);
        if same_chars(&asset_name, name) {
            proof {
                lemma_first_named_found(asset_names(assets@), name@, i as nat, assets.len() as nat);
            }
            return Some(i);
        }
        i += 1;
    }
    None
}

/// The position of the asset of a release to install on `platform`: that of
/// the first asset that bears the most wanted of the names in
/// [`candidates`] that any asset bears.
pub fn find_matching_asset(
    assets: &Vec<ReleaseAsset>,
    module_name: &str,
    platform: &PlatformTag,
) -> (found: Option<usize>)
    ensures
        match found {
            Some(at) => at < assets.len() && at == matching_asset(
                asset_names(assets@),
                module_name@,
                *platform,
            ),
            None => matching_asset(asset_names(assets@), module_name@, *platform) == -1,
        },
{
    let names = candidate_names(module_name, platform);
    let ghost wanted = candidates(module_name@, *platform);
    let ghost borne = asset_names(assets@);
    let mut c: usize = 0;
    while c < names.len()
        invariant
            c <= names.len(),
            wanted == candidates(module_name@, *platform),
            borne == asset_names(assets@),
            views(names@) == wanted,
            chosen_from(borne, wanted, 0) == chosen_from(borne, wanted, c as nat),
        decreases names.len() - c,
    {
        let name = chars_of(names[c].as_str());
        assert(wanted[c as int] == name@);
        match find_named(assets, &name) {
            Some(at) => {
                assert(chosen_from(borne, wanted, c as nat) == at);
                return Some(at);
            },
            None => {
                assert(chosen_from(borne, wanted, c as nat) == chosen_from(
                    borne,
                    wanted,
                    (c + 1) as nat,
                ));
            },
        }
        c += 1;
    }
    None
}

/// The version tag of a release, of which the release host gives a tag and
/// a name: the tag, or the name where it gives no tag.
pub fn version_tag(tag_name: Option<String>, name: Option<String>) -> (tag: Option<String>)
    ensures
        tag == match tag_name {
            Some(t) => Some(t),
            None => name,
        },
{
    match tag_name {
        Some(t) => Some(t),
        None => name,
    }
}

/// Where the newest release of a module is described.
pub open spec fn latest_release_address(module: Seq<char>) -> Seq<char> {
    "https://api.github.com/repos/asimov-modules/"@ + repository_name(module)
        + "/releases/latest"@
}

/// Where the release of a module with a given tag is described.
pub open spec fn release_address(module: Seq<char>, version: Seq<char>) -> Seq<char> {
    "https://api.github.com/repos/asimov-modules/"@ + repository_name(module)
        + "/releases/tags/"@ + version
}

/// Where the manifest of a module is found, as of a given version.
pub open spec fn manifest_address(module: Seq<char>, version: Seq<char>) -> Seq<char> {
    "https://raw.githubusercontent.com/asimov-modules/"@ + repository_name(module) + "/"@
        + version + "/.asimov/module.yaml"@
}

pub fn latest_release_url(module_name: &str) -> (url: String)
    ensures
        url@ == latest_release_address(module_name@),
{
    let mut url = String::from_str("https://api.github.com/repos/asimov-modules/");
    url.append(repository_of(module_name).as_str());
    url.append("/releases/latest");
    url
}

pub fn release_url(module_name: &str, version: &str) -> (url: String)
    ensures
        url@ == release_address(module_name@, version@),
{
    let mut url = String::from_str("https://api.github.com/repos/asimov-modules/");
    url.append(repository_of(module_name).as_str());
    url.append("/releases/tags/");
    url.append(version);
    url
}

pub fn manifest_url(module_name: &str, version: &str) -> (url: String)
    ensures
        url@ == manifest_address(module_name@, version@),
{
    let mut url = String::from_str("https://raw.githubusercontent.com/asimov-modules/");
    url.append(repository_of(module_name).as_str());
    url.append("/");
    url.append(version);
    url.append("/.asimov/module.yaml");
    url
}

/// The name of the file in which the manifest of a module is kept.
pub fn manifest_file_name(module_name: &str) -> (name: String)
    ensures
        name@ == module_name@ + ".yaml"@,
{
    let mut name = String::from_str(module_name);
    name.append(".yaml");
    name
}

/// Where the digest of an asset is published: beside the asset.
pub fn checksum_url(asset: &ReleaseAsset) -> (url: String)
    ensures
        url@ == asset.download_url@ + ".sha256"@,
{
    let mut url = asset.download_url.clone();
    url.append(".sha256");
    url
}

/// Whether a status code reports success.
pub open spec fn is_success(status: u16) -> bool {
    200 <= status < 300
}

/// What the answer to the request for the newest release means: its tag,
/// where the answer is a success and a tag could be read from it.
pub fn latest_release_outcome(status: u16, tag: Option<String>) -> (outcome: Result<
    String,
    InstallError,
>)
    ensures
        outcome == (if status == 404 {
            Err::<String, InstallError>(InstallError::NoReleaseFound)
        } else if status != 200 {
            Err(InstallError::Network)
        } else {
            match tag {
                Some(t) => Ok(t),
                None => Err(InstallError::Data),
            }
        }),
{
    if status == 404 {
        Err(InstallError::NoReleaseFound)
    } else if status != 200 {
        Err(InstallError::Network)
    } else {
        match tag {
            Some(t) => Ok(t),
            None => Err(InstallError::Data),
        }
    }
}

/// What the answer to the request for a tagged release means.
pub fn release_outcome(status: u16, release: Option<Release>) -> (outcome: Result<
    Release,
    InstallError,
>)
    ensures
        outcome == (if status == 404 {
            Err::<Release, InstallError>(InstallError::NoReleaseFound)
        } else if !is_success(status) {
            Err(InstallError::Network)
        } else {
            match release {
                Some(r) => Ok(r),
                None => Err(InstallError::Data),
            }
        }),
{
    if status == 404 {
        Err(InstallError::NoReleaseFound)
    } else if !(200 <= status && status < 300) {
        Err(InstallError::Network)
    } else {
        match release {
            Some(r) => Ok(r),
            None => Err(InstallError::Data),
        }
    }
}

/// What the answer to the request for a published digest means: no digest
/// where there is none (404), else the text without surrounding white space.
pub fn checksum_outcome(status: u16, body: &str) -> (outcome: Result<Option<String>, InstallError>)
    ensures
        match outcome {
            Ok(None) => status == 404,
            Ok(Some(text)) => is_success(status) && text@ == trim(body@),
            Err(e) => status != 404 && !is_success(status) && e == InstallError::Network,
        },
{
    if status == 404 {
        Ok(None)
    } else if !(200 <= status && status < 300) {
        Err(InstallError::Network)
    } else {
        let text = chars_of(body);
        Ok(Some(string_of(&trimmed(&text))))
    }
}

/// The digest that a published checksum names: its first run of characters
/// that are not white space, or the whole text where there is no such run.
pub open spec fn expected_hash(checksum: Seq<char>) -> Seq<char> {
    if first_token(checksum).len() == 0 {
        checksum
    } else {
        first_token(checksum)
    }
}

/// A digest is the text that a checksum names exactly if it is the first
/// token of the checksum: a checksum without a token is all white space,
/// which no digest is.
pub proof fn lemma_digest_is_a_token(digest: Seq<char>, checksum: Seq<char>)
    requires
        is_digest_text(digest),
    ensures
        digest == expected_hash(checksum) <==> digest == first_token(checksum),
{
    if first_token(checksum).len() == 0 {
        crate::text::lemma_no_token(checksum);
        assert(is_hex_digit(digest[0]));
        if digest == checksum {
            assert(is_space(checksum[0]));
        }
    }
}

/// Holds a digest that was computed against a published checksum. Any
/// difference is a mismatch.
pub fn check_digest(actual: &str, expected_checksum: &str) -> (checked: Result<(), InstallError>)
    ensures
        checked == (if actual@ == expected_hash(expected_checksum@) {
            Ok::<(), InstallError>(())
        } else {
            Err(InstallError::ChecksumMismatch)
        }),
{
    let expected = chars_of(expected_checksum);
    let token = first_token_of(&expected);
    let actual_chars = chars_of(actual);
    let same = if token.len() == 0 {
        same_chars(&actual_chars, &expected)
    } else {
        same_chars(&actual_chars, &token)
    };
    if same {
        Ok(())
    } else {
        Err(InstallError::ChecksumMismatch)
    }
}

/// The SHA-256 digest of a file that is read piece by piece.
pub struct ChecksumVerifier {
    stream: Sha256Stream,
}

impl View for ChecksumVerifier {
    type V = Seq<u8>;

    /// The bytes seen so far.
    closed spec fn view(&self) -> Seq<u8> {
        absorbed(self.stream)
    }
}

impl ChecksumVerifier {
    /// A verifier that has seen nothing.
    pub fn new() -> (verifier: ChecksumVerifier)
        ensures
            verifier@ == Seq::<u8>::empty(),
    {
        ChecksumVerifier { stream: start() }
    }

    /// Takes in the next piece of the file.
    pub fn update(&mut self, chunk: &[u8])
        ensures
            final(self)@ == old(self)@ + chunk@,
    {
        feed(&mut self.stream, chunk);
    }

    /// The digest of what was seen: 64 digits of lower-case hexadecimal.
    pub fn digest(self) -> (hex: String)
        ensures
            hex@ == sha256_hex(self@),
            is_digest_text(hex@),
    {
        finish(self.stream)
    }

    /// Holds the digest of what was seen against a published checksum: they
    /// agree exactly if the first token of the checksum is the digest.
    pub fn verify(self, expected_checksum: &str) -> (checked: Result<(), InstallError>)
        ensures
            checked == (if sha256_hex(self@) == first_token(expected_checksum@) {
                Ok::<(), InstallError>(())
            } else {
                Err(InstallError::ChecksumMismatch)
            }),
            sha256_hex(self@) == first_token(expected_checksum@) <==> sha256_hex(self@)
                == expected_hash(expected_checksum@),
    {
        let actual = self.digest();
        proof {
            lemma_digest_is_a_token(actual@, expected_checksum@);
        }
        check_digest(actual.as_str(), expected_checksum)
    }
}

/// Holds the SHA-256 digest of `data` against a published checksum: they
/// agree exactly if the first token of the checksum is the digest.
pub fn verify_checksum(data: &[u8], expected_checksum: &str) -> (checked: Result<
    (),
    InstallError,
>)
    ensures
        checked == (if sha256_hex(data@) == first_token(expected_checksum@) {
            Ok::<(), InstallError>(())
        } else {
            Err(InstallError::ChecksumMismatch)
        }),
        sha256_hex(data@) == first_token(expected_checksum@) <==> sha256_hex(data@)
            == expected_hash(expected_checksum@),
{
    let mut verifier = ChecksumVerifier::new();
    verifier.update(data);
    assert(Seq::<u8>::empty() + data@ =~= data@);
    verifier.verify(expected_checksum)
}

/// The archive formats that can be unpacked.
#[derive(Clone, Copy, Debug, PartialEq, Eq, Structural)]
pub enum ArchiveFormat {
    /// A tar archive compressed with gzip.
    TarGz,
    Zip,
}

pub open spec fn format_of(file_name: Seq<char>) -> Option<ArchiveFormat> {
    if ".tar.gz"@.is_suffix_of(file_name) {
        Some(ArchiveFormat::TarGz)
    } else if ".zip"@.is_suffix_of(file_name) {
        Some(ArchiveFormat::Zip)
    } else {
        None
    }
}

/// The format of an archive, which its file name shows.
pub fn archive_format(file_name: &str) -> (format: Result<ArchiveFormat, InstallError>)
    ensures
        format == match format_of(file_name@) {
            Some(f) => Ok::<ArchiveFormat, InstallError>(f),
            None => Err(InstallError::UnsupportedFormat),
        },
{
    let name = chars_of(file_name);
    if ends_with(&name, &chars_of(".tar.gz")) {
        Ok(ArchiveFormat::TarGz)
    } else if ends_with(&name, &chars_of(".zip")) {
        Ok(ArchiveFormat::Zip)
    } else {
        Err(InstallError::UnsupportedFormat)
    }
}

/// What an entry of a directory is.
#[derive(Clone, Copy, Debug, PartialEq, Eq, Structural)]
pub enum EntryKind {
    File,
    Directory,
    Other,
}

/// An entry of the directory into which an archive was unpacked.
#[derive(Clone, Debug)]
pub struct UnpackedEntry {
    pub name: String,
    pub kind: EntryKind,
}

/// The permissions that an installed program gets where the system has them.
pub const EXECUTABLE_MODE: u32 = 0o755;

/// The names of the regular files among the first `n` entries, in order.
pub open spec fn regular_files(entries: Seq<UnpackedEntry>, n: nat) -> Seq<Seq<char>>
    decreases n,
{
    if n == 0 {
        Seq::empty()
    } else {
        let before = regular_files(entries, (n - 1) as nat);
        if entries[n - 1].kind == EntryKind::File {
            before.push(entries[n - 1].name@)
        } else {
            before
        }
    }
}

/// The files to copy into the installation directory, each under its own
/// name: the regular files among the entries. Directories and whatever else
/// the archive held are left where they are.
pub fn files_to_install(entries: &Vec<UnpackedEntry>) -> (names: Vec<String>)
    ensures
        views(names@) == regular_files(entries@, entries.len() as nat),
{
    let mut names: Vec<String> = Vec::new();
    let mut i: usize = 0;
    assert(views(names@) =~= regular_files(entries@, 0));
    while i < entries.len()
        invariant
            i <= entries.len(),
            views(names@) == regular_files(entries@, i as nat),
        decreases entries.len() - i,
    {
        match entries[i].kind {
            EntryKind::File => {
                let ghost before = views(names@);
                names.push(entries[i].name.clone());
                assert(views(names@) =~= before.push(entries[i as int].name@));
            },
            _ => {},
        }
        i += 1;
    }
    names
}

} // verus!
