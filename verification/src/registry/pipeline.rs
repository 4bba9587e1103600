//! The steps by which a module is installed from a release.
//!
//! An [`Installation`] decides; its caller acts. The caller hands in what
//! happened as an [`Event`] and is told what to do next as an [`Action`]:
//! begin, and then answer each action with the event that reports its
//! outcome, until the action is [`Action::Finish`] or [`Action::Abort`].
//!
//! The version is settled first, then the manifest is fetched and stored,
//! the release is looked up and the asset for this platform chosen and
//! downloaded. Its digest is held against the published one, if one is
//! published. Only then is the archive unpacked and are its files installed.

use crate::registry::github::{
    archive_format, asset_names, asset_stem, candidates, check_digest, checksum_url,
    expected_hash, files_to_install, find_matching_asset, format_of, is_success,
    latest_release_address, latest_release_url, law_chosen_asset, libc_word, manifest_address,
    manifest_file_name, manifest_url, matching_asset, regular_files, release_address,
    release_url, ArchiveFormat, InstallError, PlatformTag, Release, ReleaseAsset, UnpackedEntry,
    EXECUTABLE_MODE,
};
use crate::text::{chars_of, string_of, trim, trimmed, views};
use vstd::prelude::*;

verus! {

/// How far an installation has come. Each stage but the first and the last
/// two waits for the outcome of the action that led to it.
#[derive(Clone, Copy, Debug, PartialEq, Eq, Structural)]
pub enum Stage {
    Start,
    LatestRequested,
    ManifestRequested,
    ManifestStoring,
    ReleaseRequested,
    Downloading,
    ChecksumRequested,
    Hashing,
    Extracting,
    Installing,
    Done,
    Failed(InstallError),
}

/// What is known of the digest of the download.
#[derive(Clone, Copy, Debug, PartialEq, Eq, Structural)]
pub enum ChecksumState {
    /// Nothing yet.
    Unchecked,
    /// No digest is published for the asset.
    Absent,
    /// The download has the published digest.
    Verified,
}

/// One installation of one module.
#[derive(Debug)]
pub struct Installation {
    pub module: String,
    pub platform: PlatformTag,
    /// The version to install, once it is settled.
    pub version: Option<String>,
    /// The asset that was chosen.
    pub asset: Option<ReleaseAsset>,
    /// The published checksum, as far as it was fetched.
    pub expected: Option<String>,
    pub checksum: ChecksumState,
    pub stage: Stage,
}

/// What the caller is to do next.
#[derive(Debug, PartialEq, Eq)]
pub enum Action {
    /// Ask for the newest release; answer with [`Event::LatestRelease`].
    FetchLatestRelease { url: String },
    /// Ask for the manifest; answer with [`Event::Manifest`].
    FetchManifest { url: String },
    /// Write the manifest that was fetched to the file of this name in the
    /// manifest directory; answer with [`Event::Stored`].
    StoreManifest { file_name: String },
    /// Ask for the release; answer with [`Event::ReleaseInfo`].
    FetchRelease { url: String },
    /// Download the asset to a file of this name in a private directory;
    /// answer with [`Event::Downloaded`].
    Download { url: String, file_name: String },
    /// Ask for the published digest; answer with [`Event::Checksum`].
    FetchChecksum { url: String },
    /// Compute the SHA-256 digest of the download; answer with
    /// [`Event::Digest`].
    HashDownload,
    /// Unpack the download into a fresh directory; answer with
    /// [`Event::Extracted`].
    Extract { format: ArchiveFormat },
    /// Copy these files from the unpacked tree into the installation
    /// directory and give them this mode; answer with [`Event::Installed`].
    InstallFiles { names: Vec<String>, mode: u32 },
    /// The module is installed.
    Finish,
    /// The installation has failed.
    Abort { error: InstallError },
}

/// What has happened.
#[derive(Debug)]
pub enum Event {
    Begin,
    /// The answer to the request for the newest release: its status and
    /// the tag that was read from its body, if one could be read.
    LatestRelease { status: u16, tag: Option<String> },
    Manifest { status: u16 },
    Stored,
    /// The answer to the request for the release: its status and the
    /// release that was read from its body, if one could be read.
    ReleaseInfo { status: u16, release: Option<Release> },
    Downloaded { status: u16 },
    Checksum { status: u16, body: String },
    Digest { hex: String },
    Extracted { entries: Vec<UnpackedEntry> },
    Installed,
    /// A request could not be made, or its answer broke off.
    TransportFailed,
    /// A file could not be read or written.
    IoFailed,
}

pub struct AssetView {
    pub name: Seq<char>,
    pub url: Seq<char>,
}

pub struct InstallationView {
    pub module: Seq<char>,
    pub platform: PlatformTag,
    pub version: Option<Seq<char>>,
    pub asset: Option<AssetView>,
    pub expected: Option<Seq<char>>,
    pub checksum: ChecksumState,
    pub stage: Stage,
}

pub enum ActionView {
    FetchLatestRelease { url: Seq<char> },
    FetchManifest { url: Seq<char> },
    StoreManifest { file_name: Seq<char> },
    FetchRelease { url: Seq<char> },
    Download { url: Seq<char>, file_name: Seq<char> },
    FetchChecksum { url: Seq<char> },
    HashDownload,
    Extract { format: ArchiveFormat },
    InstallFiles { names: Seq<Seq<char>>, mode: u32 },
    Finish,
    Abort { error: InstallError },
}

pub enum EventView {
    Begin,
    LatestRelease { status: u16, tag: Option<Seq<char>> },
    Manifest { status: u16 },
    Stored,
    ReleaseInfo { status: u16, assets: Option<Seq<AssetView>> },
    Downloaded { status: u16 },
    Checksum { status: u16, body: Seq<char> },
    Digest { hex: Seq<char> },
    Extracted { files: Seq<Seq<char>> },
    Installed,
    TransportFailed,
    IoFailed,
}

pub open spec fn text_of(text: Option<String>) -> Option<Seq<char>> {
    match text {
        Some(t) => Some(t@),
        None => None,
    }
}

pub open spec fn asset_view(asset: ReleaseAsset) -> AssetView {
    AssetView { name: asset.name@, url: asset.download_url@ }
}

pub open spec fn asset_views(assets: Seq<ReleaseAsset>) -> Seq<AssetView> {
    Seq::new(assets.len(), |i: int| asset_view(assets[i]))
}

pub open spec fn names_in(assets: Seq<AssetView>) -> Seq<Seq<char>> {
    Seq::new(assets.len(), |i: int| assets[i].name)
}

impl View for Installation {
    type V = InstallationView;

    open spec fn view(&self) -> InstallationView {
        InstallationView {
            module: self.module@,
            platform: self.platform,
            version: text_of(self.version),
            asset: match self.asset {
                Some(a) => Some(asset_view(a)),
                None => None,
            },
            expected: text_of(self.expected),
            checksum: self.checksum,
            stage: self.stage,
        }
    }
}

impl View for Action {
    type V = ActionView;

    open spec fn view(&self) -> ActionView {
        match *self {
            Action::FetchLatestRelease { url } => ActionView::FetchLatestRelease { url: url@ },
            Action::FetchManifest { url } => ActionView::FetchManifest { url: url@ },
            Action::StoreManifest { file_name } => ActionView::StoreManifest {
                file_name: file_name@,
            },
            Action::FetchRelease { url } => ActionView::FetchRelease { url: url@ },
            Action::Download { url, file_name } => ActionView::Download {
                url: url@,
                file_name: file_name@,
            },
            Action::FetchChecksum { url } => ActionView::FetchChecksum { url: url@ },
            Action::HashDownload => ActionView::HashDownload,
            Action::Extract { format } => ActionView::Extract { format },
            Action::InstallFiles { names, mode } => ActionView::InstallFiles {
                names: views(names@),
                mode,
            },
            Action::Finish => ActionView::Finish,
            Action::Abort { error } => ActionView::Abort { error },
        }
    }
}

impl View for Event {
    type V = EventView;

    open spec fn view(&self) -> EventView {
        match *self {
            Event::Begin => EventView::Begin,
            Event::LatestRelease { status, tag } => EventView::LatestRelease {
                status,
                tag: text_of(tag),
            },
            Event::Manifest { status } => EventView::Manifest { status },
            Event::Stored => EventView::Stored,
            Event::ReleaseInfo { status, release } => EventView::ReleaseInfo {
                status,
                assets: match release {
                    Some(r) => Some(asset_views(r.assets@)),
                    None => None,
                },
            },
            Event::Downloaded { status } => EventView::Downloaded { status },
            Event::Checksum { status, body } => EventView::Checksum { status, body: body@ },
            Event::Digest { hex } => EventView::Digest { hex: hex@ },
            Event::Extracted { entries } => EventView::Extracted {
                files: regular_files(entries@, entries.len() as nat),
            },
            Event::Installed => EventView::Installed,
            Event::TransportFailed => EventView::TransportFailed,
            Event::IoFailed => EventView::IoFailed,
        }
    }
}

/// An installation of which nothing has been done.
pub open spec fn initial(
    module: Seq<char>,
    version: Option<Seq<char>>,
    platform: PlatformTag,
) -> InstallationView {
    InstallationView {
        module,
        platform,
        version,
        asset: None,
        expected: None,
        checksum: ChecksumState::Unchecked,
        stage: Stage::Start,
    }
}

/// The installation has failed with `error`.
pub open spec fn failed(s: InstallationView, error: InstallError) -> (InstallationView, ActionView) {
    (InstallationView { stage: Stage::Failed(error), ..s }, ActionView::Abort { error })
}

/// The download is in order as far as `checksum` says: on to unpacking it,
/// if its name shows a format that can be unpacked.
pub open spec fn unpack(s: InstallationView, checksum: ChecksumState) -> (
    InstallationView,
    ActionView,
) {
    match s.asset {
        Some(asset) => match format_of(asset.name) {
            Some(format) => (
                InstallationView { checksum, stage: Stage::Extracting, ..s },
                ActionView::Extract { format },
            ),
            None => failed(s, InstallError::UnsupportedFormat),
        },
        None => failed(s, InstallError::Data),
    }
}

/// The step that an installation in state `s` takes on event `e`: the state
/// it is in afterwards and the action it asks for.
///
/// A failure of the transport ends the installation with
/// [`InstallError::Network`], one of the file system with
/// [`InstallError::Io`], and an event that does not answer the action that
/// is pending with [`InstallError::Data`]. An installation that has ended
/// stays as it is.
pub open spec fn next(s: InstallationView, e: EventView) -> (InstallationView, ActionView) {
    match (s.stage, e) {
        (Stage::Failed(error), _) => (s, ActionView::Abort { error }),
        (Stage::Done, _) => (s, ActionView::Finish),
        (_, EventView::TransportFailed) => failed(s, InstallError::Network),
        (_, EventView::IoFailed) => failed(s, InstallError::Io),
        (Stage::Start, EventView::Begin) => match s.version {
            Some(version) => (
                InstallationView { stage: Stage::ManifestRequested, ..s },
                ActionView::FetchManifest { url: manifest_address(s.module, version) },
            ),
            None => (
                InstallationView { stage: Stage::LatestRequested, ..s },
                ActionView::FetchLatestRelease { url: latest_release_address(s.module) },
            ),
        },
        (Stage::LatestRequested, EventView::LatestRelease { status, tag }) => if status == 404 {
            failed(s, InstallError::NoReleaseFound)
        } else if status != 200 {
            failed(s, InstallError::Network)
        } else {
            match tag {
                Some(version) => (
                    InstallationView {
                        version: Some(version),
                        stage: Stage::ManifestRequested,
                        ..s
                    },
                    ActionView::FetchManifest { url: manifest_address(s.module, version) },
                ),
                None => failed(s, InstallError::Data),
            }
        },
        (Stage::ManifestRequested, EventView::Manifest { status }) => if status == 200 {
            (
                InstallationView { stage: Stage::ManifestStoring, ..s },
                ActionView::StoreManifest { file_name: s.module + ".yaml"@ },
            )
        } else {
            failed(s, InstallError::Network)
        },
        (Stage::ManifestStoring, EventView::Stored) => match s.version {
            Some(version) => (
                InstallationView { stage: Stage::ReleaseRequested, ..s },
                ActionView::FetchRelease { url: release_address(s.module, version) },
            ),
            None => failed(s, InstallError::Data),
        },
        (Stage::ReleaseRequested, EventView::ReleaseInfo { status, assets }) => if status == 404 {
            failed(s, InstallError::NoReleaseFound)
        } else if !is_success(status) {
            failed(s, InstallError::Network)
        } else {
            match assets {
                Some(list) => {
                    let at = matching_asset(names_in(list), s.module, s.platform);
                    if 0 <= at < list.len() {
                        (
                            InstallationView {
                                asset: Some(list[at]),
                                stage: Stage::Downloading,
                                ..s
                            },
                            ActionView::Download { url: list[at].url, file_name: list[at].name },
                        )
                    } else {
                        failed(s, InstallError::NoMatchingAsset)
                    }
                },
                None => failed(s, InstallError::Data),
            }
        },
        (Stage::Downloading, EventView::Downloaded { status }) => match s.asset {
            Some(asset) => if is_success(status) {
                (
                    InstallationView { stage: Stage::ChecksumRequested, ..s },
                    ActionView::FetchChecksum { url: asset.url + ".sha256"@ },
                )
            } else {
                failed(s, InstallError::Network)
            },
            None => failed(s, InstallError::Data),
        },
        (Stage::ChecksumRequested, EventView::Checksum { status, body }) => if status == 404 {
            unpack(s, ChecksumState::Absent)
        } else if !is_success(status) {
            failed(s, InstallError::Network)
        } else {
            (
                InstallationView { expected: Some(trim(body)), stage: Stage::Hashing, ..s },
                ActionView::HashDownload,
            )
        },
        (Stage::Hashing, EventView::Digest { hex }) => match s.expected {
            Some(expected) => if hex == expected_hash(expected) {
                unpack(s, ChecksumState::Verified)
            } else {
                failed(s, InstallError::ChecksumMismatch)
            },
            None => failed(s, InstallError::Data),
        },
        (Stage::Extracting, EventView::Extracted { files }) => (
            InstallationView { stage: Stage::Installing, ..s },
            ActionView::InstallFiles { names: files, mode: EXECUTABLE_MODE },
        ),
        (Stage::Installing, EventView::Installed) => (
            InstallationView { stage: Stage::Done, ..s },
            ActionView::Finish,
        ),
        _ => failed(s, InstallError::Data),
    }
}

/// The state of an installation that began in state `s`, after the first
/// `n` of `events`.
pub open spec fn state_after(s: InstallationView, events: Seq<EventView>, n: nat) -> InstallationView
    decreases n,
{
    if n == 0 {
        s
    } else {
        next(state_after(s, events, (n - 1) as nat), events[n - 1]).0
    }
}

/// The action with which an installation that began in state `s` answers
/// the event at position `n` of `events`.
pub open spec fn action_at(s: InstallationView, events: Seq<EventView>, n: nat) -> ActionView {
    next(state_after(s, events, n), events[n as int]).1
}

/// The stages at which a version is settled.
pub open spec fn has_version(stage: Stage) -> bool {
    stage != Stage::Start && stage != Stage::LatestRequested && !(stage is Failed)
}

/// The stages at which an asset is chosen.
pub open spec fn has_asset(stage: Stage) -> bool {
    has_version(stage) && stage != Stage::ManifestRequested && stage != Stage::ManifestStoring
        && stage != Stage::ReleaseRequested
}

/// The stages at which the digest of the download is settled.
pub open spec fn is_checked(stage: Stage) -> bool {
    stage == Stage::Extracting || stage == Stage::Installing || stage == Stage::Done
}

/// What holds of every state that an installation reaches. Files are
/// unpacked and installed only once the digest of the download is known to
/// be in order, or known to be unpublished. What a stage relies on is
/// there: the version, the asset, which is one that fits the platform, and
/// the published checksum while the digest is awaited.
pub open spec fn sound(s: InstallationView) -> bool {
    &&& is_checked(s.stage) ==> s.checksum != ChecksumState::Unchecked
    &&& !is_checked(s.stage) && !(s.stage is Failed) ==> s.checksum == ChecksumState::Unchecked
    &&& has_version(s.stage) ==> s.version is Some
    &&& has_asset(s.stage) ==> s.asset is Some
    &&& s.asset matches Some(asset) ==> candidates(s.module, s.platform).contains(asset.name)
    &&& s.stage == Stage::Hashing ==> s.expected is Some
    &&& s.checksum == ChecksumState::Verified ==> s.expected is Some
}

/// An installation that has failed stays failed, whatever happens, and asks
/// for nothing more.
pub proof fn law_failure_is_final(s: InstallationView, e: EventView, error: InstallError)
    requires
        s.stage == Stage::Failed(error),
    ensures
        next(s, e) == (s, ActionView::Abort { error }),
{
}

/// A digest other than the published one ends the installation with
/// [`InstallError::ChecksumMismatch`].
pub proof fn law_wrong_digest_is_fatal(s: InstallationView, hex: Seq<char>, expected: Seq<char>)
    requires
        s.stage == Stage::Hashing,
        s.expected == Some(expected),
        hex != expected_hash(expected),
    ensures
        next(s, EventView::Digest { hex }) == failed(s, InstallError::ChecksumMismatch),
{
}

/// Every step keeps an installation [`sound`].
pub proof fn law_steps_are_sound(s: InstallationView, e: EventView)
    requires
        sound(s),
    ensures
        sound(next(s, e).0),
{
    if s.stage == Stage::ReleaseRequested {
        if let EventView::ReleaseInfo { status, assets: Some(list) } = e {
            law_chosen_asset(names_in(list), candidates(s.module, s.platform), 0);
        }
    }
}

/// An archive that was chosen for the platform can be unpacked: in a
/// [`sound`] state the installation never fails for the format of the
/// download.
pub proof fn law_chosen_assets_can_be_unpacked(s: InstallationView, e: EventView)
    requires
        sound(s),
        !(s.stage is Failed),
    ensures
        next(s, e).0.stage != Stage::Failed(InstallError::UnsupportedFormat),
{
    if let Some(asset) = s.asset {
        lemma_candidates_have_formats(s.module, s.platform, asset.name);
    }
}

/// Every name that fits a platform shows a format that can be unpacked.
pub proof fn lemma_candidates_have_formats(module: Seq<char>, platform: PlatformTag, name: Seq<char>)
    requires
        candidates(module, platform).contains(name),
    ensures
        format_of(name) is Some,
{
    let wanted = candidates(module, platform);
    let at = choose|at: int| 0 <= at < wanted.len() && wanted[at] == name;
    let tar = ".tar.gz"@;
    let zip = ".zip"@;
    let stem = asset_stem(module, platform);
    assert forall|front: Seq<char>, ending: Seq<char>| ending.is_suffix_of(#[trigger] (front + ending)) by {
        let whole = front + ending;
        assert(whole.subrange(whole.len() - ending.len(), whole.len() as int) =~= ending);
    }
    match platform.libc {
        Some(libc) => {
            let specific = stem + "-"@ + libc_word(libc);
            if at == 0 {
                assert(tar.is_suffix_of(specific + tar));
            } else if at == 1 {
                assert(zip.is_suffix_of(specific + zip));
            } else if at == 2 {
                assert(tar.is_suffix_of(stem + tar));
            } else {
                assert(zip.is_suffix_of(stem + zip));
            }
        },
        None => {
            if at == 0 {
                assert(tar.is_suffix_of(stem + tar));
            } else {
                assert(zip.is_suffix_of(stem + zip));
            }
        },
    }
}

/// Every state that is reached from the beginning is [`sound`].
pub proof fn law_reached_states_are_sound(
    module: Seq<char>,
    version: Option<Seq<char>>,
    platform: PlatformTag,
    events: Seq<EventView>,
    n: nat,
)
    ensures
        sound(state_after(initial(module, version, platform), events, n)),
    decreases n,
{
    if n > 0 {
        let s = initial(module, version, platform);
        law_reached_states_are_sound(module, version, platform, events, (n - 1) as nat);
        law_steps_are_sound(state_after(s, events, (n - 1) as nat), events[n - 1]);
    }
}

/// Files are installed only in answer to the unpacking, and never before
/// the digest of the download is settled.
pub proof fn law_install_follows_check(s: InstallationView, e: EventView)
    requires
        sound(s),
        next(s, e).1 is InstallFiles,
    ensures
        s.stage == Stage::Extracting,
        s.checksum == ChecksumState::Absent || s.checksum == ChecksumState::Verified,
        s.asset matches Some(asset) && candidates(s.module, s.platform).contains(asset.name),
{
}

/// Once a digest has been found wrong, nothing is installed: every later
/// action is an abort with [`InstallError::ChecksumMismatch`].
pub proof fn law_nothing_installed_after_mismatch(
    s: InstallationView,
    events: Seq<EventView>,
    at: nat,
    later: nat,
)
    requires
        at <= later < events.len(),
        state_after(s, events, at).stage == Stage::Hashing,
        state_after(s, events, at).expected is Some,
        events[at as int] matches EventView::Digest { hex } && hex != expected_hash(
            state_after(s, events, at).expected->0,
        ),
    ensures
        action_at(s, events, later) == (ActionView::Abort {
            error: InstallError::ChecksumMismatch,
        }),
        !(action_at(s, events, later) is InstallFiles),
    decreases later - at,
{
    lemma_stays_failed(s, events, at, later);
}

proof fn lemma_stays_failed(s: InstallationView, events: Seq<EventView>, at: nat, later: nat)
    requires
        at <= later < events.len(),
        state_after(s, events, at).stage == Stage::Hashing,
        state_after(s, events, at).expected is Some,
        events[at as int] matches EventView::Digest { hex } && hex != expected_hash(
            state_after(s, events, at).expected->0,
        ),
    ensures
        state_after(s, events, later + 1).stage == Stage::Failed(InstallError::ChecksumMismatch),
        action_at(s, events, later) == (ActionView::Abort {
            error: InstallError::ChecksumMismatch,
        }),
    decreases later - at,
{
    if later > at {
        lemma_stays_failed(s, events, at, (later - 1) as nat);
    }
}

fn copy_asset(asset: &ReleaseAsset) -> (copy: ReleaseAsset)
    ensures
        asset_view(copy) == asset_view(*asset),
{
    ReleaseAsset { name: asset.name.clone(), download_url: asset.download_url.clone() }
}

impl Installation {
    /// An installation of `module_name` of which nothing has been done. With
    /// no `version` the newest release is installed.
    pub fn new(module_name: &str, version: Option<String>, platform: PlatformTag) -> (state:
        Installation)
        ensures
            state@ == initial(module_name@, text_of(version), platform),
            sound(state@),
    {
        Installation {
            module: String::from_str(module_name),
            platform,
            version,
            asset: None,
            expected: None,
            checksum: ChecksumState::Unchecked,
            stage: Stage::Start,
        }
    }

    /// Whether the installation has ended, well or not.
    pub fn is_over(&self) -> (over: bool)
        ensures
            over == (self.stage == Stage::Done || self.stage is Failed),
    {
        match self.stage {
            Stage::Done => true,
            Stage::Failed(_) => true,
            _ => false,
        }
    }

    fn fail(&mut self, error: InstallError) -> (action: Action)
        ensures
            (final(self)@, action@) == failed(old(self)@, error),
    {
        self.stage = Stage::Failed(error);
        Action::Abort { error }
    }

    fn unpack(&mut self, checksum: ChecksumState) -> (action: Action)
        ensures
            (final(self)@, action@) == unpack(old(self)@, checksum),
    {
        let format = match &self.asset {
            Some(asset) => archive_format(asset.name.as_str()),
            None => {
                return self.fail(InstallError::Data);
            },
        };
        match format {
            Ok(format) => {
                self.checksum = checksum;
                self.stage = Stage::Extracting;
                Action::Extract { format }
            },
            Err(_) => self.fail(InstallError::UnsupportedFormat),
        }
    }

    fn on_begin(&mut self) -> (action: Action)
        requires
            old(self).stage == Stage::Start,
        ensures
            (final(self)@, action@) == next(old(self)@, EventView::Begin),
    {
        match &self.version {
            Some(version) => {
                let url = manifest_url(self.module.as_str(), version.as_str());
                self.stage = Stage::ManifestRequested;
                Action::FetchManifest { url }
            },
            None => {
                let url = latest_release_url(self.module.as_str());
                self.stage = Stage::LatestRequested;
                Action::FetchLatestRelease { url }
            },
        }
    }

    fn on_latest_release(&mut self, status: u16, tag: Option<String>) -> (action: Action)
        requires
            old(self).stage == Stage::LatestRequested,
        ensures
            (final(self)@, action@) == next(
                old(self)@,
                EventView::LatestRelease { status, tag: text_of(tag) },
            ),
    {
        if status == 404 {
            self.fail(InstallError::NoReleaseFound)
        } else if status != 200 {
            self.fail(InstallError::Network)
        } else {
            match tag {
                Some(version) => {
                    let url = manifest_url(self.module.as_str(), version.as_str());
                    self.version = Some(version);
                    self.stage = Stage::ManifestRequested;
                    Action::FetchManifest { url }
                },
                None => self.fail(InstallError::Data),
            }
        }
    }

    fn on_manifest(&mut self, status: u16) -> (action: Action)
        requires
            old(self).stage == Stage::ManifestRequested,
        ensures
            (final(self)@, action@) == next(old(self)@, EventView::Manifest { status }),
    {
        if status == 200 {
            let file_name = manifest_file_name(self.module.as_str());
            self.stage = Stage::ManifestStoring;
            Action::StoreManifest { file_name }
        } else {
            self.fail(InstallError::Network)
        }
    }

    fn on_stored(&mut self) -> (action: Action)
        requires
            old(self).stage == Stage::ManifestStoring,
        ensures
            (final(self)@, action@) == next(old(self)@, EventView::Stored),
    {
        let url = match &self.version {
            Some(version) => release_url(self.module.as_str(), version.as_str()),
            None => {
                return self.fail(InstallError::Data);
            },
        };
        self.stage = Stage::ReleaseRequested;
        Action::FetchRelease { url }
    }

    fn on_release(&mut self, status: u16, release: Option<Release>) -> (action: Action)
        requires
            old(self).stage == Stage::ReleaseRequested,
        ensures
            (final(self)@, action@) == next(
                old(self)@,
                EventView::ReleaseInfo {
                    status,
                    assets: match release {
                        Some(r) => Some(asset_views(r.assets@)),
                        None => None,
                    },
                },
            ),
    {
        if status == 404 {
            return self.fail(InstallError::NoReleaseFound);
        }
        if !(200 <= status && status < 300) {
            return self.fail(InstallError::Network);
        }
        let release = match release {
            Some(release) => release,
            None => {
                return self.fail(InstallError::Data);
            },
        };
        assert(names_in(asset_views(release.assets@)) =~= asset_names(release.assets@));
        match find_matching_asset(&release.assets, self.module.as_str(), &self.platform) {
            Some(at) => {
                let asset = copy_asset(&release.assets[at]);
                let action = Action::Download {
                    url: asset.download_url.clone(),
                    file_name: asset.name.clone(),
                };
                self.asset = Some(asset);
                self.stage = Stage::Downloading;
                action
            },
            None => self.fail(InstallError::NoMatchingAsset),
        }
    }

    fn on_downloaded(&mut self, status: u16) -> (action: Action)
        requires
            old(self).stage == Stage::Downloading,
        ensures
            (final(self)@, action@) == next(old(self)@, EventView::Downloaded { status }),
    {
        let url = match &self.asset {
            Some(asset) => checksum_url(asset),
            None => {
                return self.fail(InstallError::Data);
            },
        };
        if 200 <= status && status < 300 {
            self.stage = Stage::ChecksumRequested;
            Action::FetchChecksum { url }
        } else {
            self.fail(InstallError::Network)
        }
    }

    fn on_checksum(&mut self, status: u16, body: String) -> (action: Action)
        requires
            old(self).stage == Stage::ChecksumRequested,
        ensures
            (final(self)@, action@) == next(
                old(self)@,
                EventView::Checksum { status, body: body@ },
            ),
    {
        if status == 404 {
            self.unpack(ChecksumState::Absent)
        } else if !(200 <= status && status < 300) {
            self.fail(InstallError::Network)
        } else {
            let text = chars_of(body.as_str());
            self.expected = Some(string_of(&trimmed(&text)));
            self.stage = Stage::Hashing;
            Action::HashDownload
        }
    }

    fn on_digest(&mut self, hex: String) -> (action: Action)
        requires
            old(self).stage == Stage::Hashing,
        ensures
            (final(self)@, action@) == next(old(self)@, EventView::Digest { hex: hex@ }),
    {
        let checked = match &self.expected {
            Some(expected) => check_digest(hex.as_str(), expected.as_str()),
            None => {
                return self.fail(InstallError::Data);
            },
        };
        match checked {
            Ok(()) => self.unpack(ChecksumState::Verified),
            Err(error) => self.fail(error),
        }
    }

    /// Takes in what has happened and says what to do next.
    pub fn step(&mut self, event: Event) -> (action: Action)
        ensures
            (final(self)@, action@) == next(old(self)@, event@),
            sound(old(self)@) ==> sound(final(self)@),
    {
        proof {
            if sound(self@) {
                law_steps_are_sound(self@, event@);
            }
        }
        match self.stage {
            Stage::Failed(error) => {
                return Action::Abort { error };
            },
            Stage::Done => {
                return Action::Finish;
            },
            _ => {},
        }
        match event {
            Event::TransportFailed => self.fail(InstallError::Network),
            Event::IoFailed => self.fail(InstallError::Io),
            Event::Begin => match self.stage {
                Stage::Start => self.on_begin(),
                _ => self.fail(InstallError::Data),
            },
            Event::LatestRelease { status, tag } => match self.stage {
                Stage::LatestRequested => self.on_latest_release(status, tag),
                _ => self.fail(InstallError::Data),
            },
            Event::Manifest { status } => match self.stage {
                Stage::ManifestRequested => self.on_manifest(status),
                _ => self.fail(InstallError::Data),
            },
            Event::Stored => match self.stage {
                Stage::ManifestStoring => self.on_stored(),
                _ => self.fail(InstallError::Data),
            },
            Event::ReleaseInfo { status, release } => match self.stage {
                Stage::ReleaseRequested => self.on_release(status, release),
                _ => self.fail(InstallError::Data),
            },
            Event::Downloaded { status } => match self.stage {
                Stage::Downloading => self.on_downloaded(status),
                _ => self.fail(InstallError::Data),
            },
            Event::Checksum { status, body } => match self.stage {
                Stage::ChecksumRequested => self.on_checksum(status, body),
                _ => self.fail(InstallError::Data),
            },
            Event::Digest { hex } => match self.stage {
                Stage::Hashing => self.on_digest(hex),
                _ => self.fail(InstallError::Data),
            },
            Event::Extracted { entries } => match self.stage {
                Stage::Extracting => {
                    let names = files_to_install(&entries);
                    self.stage = Stage::Installing;
                    Action::InstallFiles { names, mode: EXECUTABLE_MODE }
                },
                _ => self.fail(InstallError::Data),
            },
            Event::Installed => match self.stage {
                Stage::Installing => {
                    self.stage = Stage::Done;
                    Action::Finish
                },
                _ => self.fail(InstallError::Data),
            },
        }
    }
}

} // verus!
