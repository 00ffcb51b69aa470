//! Decisions of the self-update: whether a release is newer, which platform
//! build to fetch, and where from. Fetching and installing are left to the caller.
use vstd::prelude::*;
use vstd::string::*;
use crate::version_comparator::{compare_versions, is_newer, version_numbers};

verus! {

/// A downloadable file of a release.
#[derive(Debug)]
pub struct GitHubAsset {
    pub name: String,
    pub browser_download_url: String,
}

/// A published release: its tag and its files.
#[derive(Debug)]
pub struct GitHubRelease {
    pub tag_name: String,
    pub assets: Vec<GitHubAsset>,
}

/// Why an update cannot go ahead.
#[derive(Debug)]
pub enum UpdateError {
    /// The current version or the release tag is not a version.
    InvalidVersion,
    /// No build is published for this operating system and architecture.
    UnsupportedPlatform { os: String, arch: String },
    /// The release has no file for this platform.
    NoBinaryForPlatform { target: String },
}

impl UpdateError {
    pub fn message(&self) -> (r: String)
        ensures
            r@ == match self {
                UpdateError::InvalidVersion => "Invalid version format"@,
                UpdateError::UnsupportedPlatform { os, arch } => "Unsupported platform: "@ + os@ + "-"@ + arch@,
                UpdateError::NoBinaryForPlatform { target } => "No binary found for platform: "@ + target@,
            },
    {
        match self {
            UpdateError::InvalidVersion => String::from_str("Invalid version format"),
            UpdateError::UnsupportedPlatform { os, arch } => {
                let mut s = String::from_str("Unsupported platform: ");
                s.append(os.as_str());
                s.append("-");
                s.append(arch.as_str());
                s
            },
            UpdateError::NoBinaryForPlatform { target } => {
                let mut s = String::from_str("No binary found for platform: ");
                s.append(target.as_str());
                s
            },
        }
    }
}

/// What to do about an update.
#[derive(Debug)]
pub enum UpdateStep {
    /// The running version is the latest.
    UpToDate,
    /// Download the new build from this address.
    Download { url: String },
}

/// The build target for an operating system and architecture, for the platforms
/// that releases are published for.
pub open spec fn platform_target_of(os: Seq<char>, arch: Seq<char>) -> Option<Seq<char>> {
    if os == "linux"@ && arch == "x86_64"@ {
        Some("x86_64-unknown-linux-gnu"@)
    } else if os == "linux"@ && arch == "aarch64"@ {
        Some("aarch64-unknown-linux-gnu"@)
    } else if os == "macos"@ && arch == "x86_64"@ {
        Some("x86_64-apple-darwin"@)
    } else if os == "macos"@ && arch == "aarch64"@ {
        Some("aarch64-apple-darwin"@)
    } else if os == "windows"@ && arch == "x86_64"@ {
        Some("x86_64-pc-windows-msvc"@)
    } else {
        None
    }
}

/// The name of the release file built for `target`.
pub open spec fn asset_name_of(target: Seq<char>) -> Seq<char> {
    "image-optimizer-"@ + target
}

/// Index of the first asset called `name`.
pub open spec fn first_asset_named(assets: Seq<GitHubAsset>, name: Seq<char>) -> Option<int> {
    if exists|i: int| 0 <= i < assets.len() && (#[trigger] assets[i]).name@ == name {
        Some(choose|i: int| 0 <= i < assets.len() && assets[i].name@ == name
            && forall|j: int| 0 <= j < i ==> (#[trigger] assets[j]).name@ != name)
    } else {
        None
    }
}

fn text_eq(a: &str, b: &str) -> (r: bool)
    ensures
        r == (a@ == b@),
{
    let n = a.unicode_len();
    if n != b.unicode_len() {
        return false;
    }
    let mut i: usize = 0;
    while i < n
        invariant
            i <= n,
            n == a@.len(),
            n == b@.len(),
            forall|j: int| 0 <= j < i ==> a@[j] == b@[j],
        decreases n - i,
    {
        if a.get_char(i) != b.get_char(i) {
            return false;
        }
        i = i + 1;
    }
    assert(a@ =~= b@);
    true
}

/// The build target for this operating system and architecture.
pub fn get_platform_target(os: &str, arch: &str) -> (r: Result<String, UpdateError>)
    ensures
        match platform_target_of(os@, arch@) {
            Some(t) => r matches Ok(s) && s@ == t,
            None => r matches Err(UpdateError::UnsupportedPlatform { os: o, arch: a })
                && o@ == os@ && a@ == arch@,
        },
{
    let t = if text_eq(os, "linux") && text_eq(arch, "x86_64") {
        "x86_64-unknown-linux-gnu"
    } else if text_eq(os, "linux") && text_eq(arch, "aarch64") {
        "aarch64-unknown-linux-gnu"
    } else if text_eq(os, "macos") && text_eq(arch, "x86_64") {
        "x86_64-apple-darwin"
    } else if text_eq(os, "macos") && text_eq(arch, "aarch64") {
        "aarch64-apple-darwin"
    } else if text_eq(os, "windows") && text_eq(arch, "x86_64") {
        "x86_64-pc-windows-msvc"
    } else {
        return Err(UpdateError::UnsupportedPlatform { os: String::from_str(os), arch: String::from_str(arch) });
    };
    Ok(String::from_str(t))
}

/// The name of the release file built for `target`.
pub fn asset_name(target: &str) -> (r: String)
    ensures
        r@ == asset_name_of(target@),
{
    let mut s = String::from_str("image-optimizer-");
    s.append(target);
    s
}

/// Index of the first asset of the release called `name`.
pub fn find_asset(release: &GitHubRelease, name: &str) -> (r: Option<usize>)
    ensures
        match r {
            Some(i) => i < release.assets@.len() && first_asset_named(release.assets@, name@) == Some(i as int),
            None => first_asset_named(release.assets@, name@) is None,
        },
{
    let mut i: usize = 0;
    while i < release.assets.len()
        invariant
            i <= release.assets@.len(),
            forall|j: int| 0 <= j < i ==> (#[trigger] release.assets@[j]).name@ != name@,
        decreases release.assets@.len() - i,
    {
        if text_eq(release.assets[i].name.as_str(), name) {
            let ghost w = choose|k: int| 0 <= k < release.assets@.len() && release.assets@[k].name@ == name@
                && forall|j: int| 0 <= j < k ==> (#[trigger] release.assets@[j]).name@ != name@;
            assert(release.assets@[i as int].name@ == name@);
            assert(w == i) by {
                if w < i {
                    assert(release.assets@[w].name@ != name@);
                } else if w > i {
                    assert(release.assets@[i as int].name@ != name@);
                }
            }
            return Some(i);
        }
        i = i + 1;
    }
    None
}

/// What to do about an update to `release`, for the running `current` version on the
/// platform `os`/`arch`: nothing when the release is not newer, else download the
/// release's file for this platform.
pub fn plan_update(current: &str, release: &GitHubRelease, os: &str, arch: &str) -> (r: Result<
    UpdateStep,
    UpdateError,
>)
    ensures
        match (version_numbers(current@), version_numbers(release.tag_name@)) {
            (Some(c), Some(l)) => if !is_newer(c, l) {
                r matches Ok(UpdateStep::UpToDate)
            } else {
                match platform_target_of(os@, arch@) {
                    None => r matches Err(UpdateError::UnsupportedPlatform { .. }),
                    Some(t) => match first_asset_named(release.assets@, asset_name_of(t)) {
                        None => r matches Err(UpdateError::NoBinaryForPlatform { target }) && target@ == t,
                        Some(i) => r matches Ok(UpdateStep::Download { url })
                            && url@ == release.assets@[i].browser_download_url@,
                    },
                }
            },
            _ => r matches Err(UpdateError::InvalidVersion),
        },
{
    let newer = match compare_versions(current, release.tag_name.as_str()) {
        Ok(b) => b,
        Err(_) => return Err(UpdateError::InvalidVersion),
    };
    if !newer {
        return Ok(UpdateStep::UpToDate);
    }
    let target = get_platform_target(os, arch)?;
    let name = asset_name(target.as_str());
    match find_asset(release, name.as_str()) {
        Some(i) => Ok(UpdateStep::Download { url: release.assets[i].browser_download_url.clone() }),
        None => Err(UpdateError::NoBinaryForPlatform { target }),
    }
}

} // verus!
