//! How the package indexes and the release host are asked.

use vstd::prelude::*;

verus! {

/// The name under which requests are made.
pub const USER_AGENT: &'static str = "asimov-module-cli";

/// The seconds after which the attempt to connect is given up.
pub const CONNECT_TIMEOUT_SECS: u64 = 10;

/// The seconds after which waiting for more of an answer is given up.
pub const READ_TIMEOUT_SECS: u64 = 30;

/// Where the collection crate is described in the index of crates.io.
pub const CRATES_INDEX_URL: &'static str = "https://index.crates.io/as/im/asimov-cli";

/// Where the manifest of the collection of all modules is found.
pub const ALL_MODULES_URL: &'static str =
    "https://github.com/asimov-modules/asimov-modules/raw/master/all/.asimov/module.yaml";

/// The version of the collection gem whose modules are listed.
pub const RUBYGEMS_COLLECTION_VERSION: &'static str = "25.0.0.dev.0";

/// The version of the collection package on PyPI whose modules are listed.
pub const PYPI_COLLECTION_VERSION: &'static str = "25.0.0.dev0";

} // verus!
