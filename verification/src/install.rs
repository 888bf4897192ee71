//! Planning an install: what to list, or what to fetch and where to put it.
//!
//! Nothing is fetched or written here. An install starts with a step that
//! says what the caller has to prepare and fetch; once the catalog is
//! there, it is listed, or turned into the plan of the files to download.

use crate::catalog::{artifact_url, artifact_url_of, catalog_url, catalog_url_of, Catalog};
use crate::error::{ConfigError, InstallError};
use crate::paths::{
    artifact_dir_in, artifact_dir_under, artifact_name, artifact_path, home_dir, joined,
};
use crate::platform::{soliditylang_platform, Platform};
use crate::text::{contains_text, same_text, texts};
use crate::version::{all_well_formed, first_malformed_at, newest_first, sort_newest_first};
use vstd::prelude::*;

verus! {

/// The permission bits of an installed artifact: `rwxrwxr-x`.
pub const ARTIFACT_MODE: u32 = 0o775;

/// The request that stands for every release of the catalog.
pub open spec fn everything() -> Seq<char> {
    "all"@
}

/// One file to fetch and store.
#[derive(Clone, Debug, PartialEq, Eq)]
pub struct Download {
    /// The release that the file holds.
    pub version: String,
    /// Where to fetch the file from.
    pub url: String,
    /// Where to write the file.
    pub path: String,
    /// The permission bits to give the file once it is written.
    pub mode: u32,
}

/// What a [`Download`] says, as plain sequences.
pub struct DownloadView {
    pub version: Seq<char>,
    pub url: Seq<char>,
    pub path: Seq<char>,
    pub mode: u32,
}

impl View for Download {
    type V = DownloadView;

    open spec fn view(&self) -> DownloadView {
        DownloadView { version: self.version@, url: self.url@, path: self.path@, mode: self.mode }
    }
}

/// The files to fetch for an install request.
#[derive(Clone, Debug, PartialEq, Eq)]
pub struct DownloadPlan {
    /// The files to fetch and write, in the catalog's order. A file that is
    /// already there is written again.
    pub downloads: Vec<Download>,
    /// The requested identifiers that the catalog does not list: nothing is
    /// fetched for them.
    pub unmatched: Vec<String>,
}

/// What to do first about an install request.
#[derive(Clone, Debug, PartialEq, Eq)]
pub enum InstallStep {
    /// Nothing was requested. Fetch the catalog from `catalog_url` and let
    /// [`list_available`] put its releases in order.
    FetchToList { catalog_url: String },
    /// Releases were requested. Create `directory` if it is missing, then
    /// fetch the catalog from `catalog_url` and let [`plan_downloads`] say,
    /// for `platform` and `directory`, what to download.
    FetchToInstall { directory: String, catalog_url: String, platform: Platform },
}

/// What a list of downloads says, as plain sequences.
pub open spec fn download_views(list: Seq<Download>) -> Seq<DownloadView> {
    list.map_values(|d: Download| d@)
}

/// Whether a request asks for release `version`: by naming it, or by
/// asking for everything.
pub open spec fn is_wanted(requested: Seq<Seq<char>>, version: Seq<char>) -> bool {
    requested.contains(everything()) || requested.contains(version)
}

/// The download that installs the catalog entry `entry` into `directory`.
pub open spec fn download_of(
    platform: Platform,
    directory: Seq<char>,
    entry: (Seq<char>, Seq<char>),
) -> DownloadView {
    DownloadView {
        version: entry.0,
        url: artifact_url_of(platform, entry.1),
        path: joined(directory, artifact_name(entry.0)),
        mode: ARTIFACT_MODE,
    }
}

/// The downloads that a request calls for: one for each wanted entry of the
/// catalog, in the catalog's order.
pub open spec fn downloads_for(
    requested: Seq<Seq<char>>,
    entries: Seq<(Seq<char>, Seq<char>)>,
    platform: Platform,
    directory: Seq<char>,
) -> Seq<DownloadView> {
    entries.filter(|e: (Seq<char>, Seq<char>)| is_wanted(requested, e.0)).map_values(
        |e: (Seq<char>, Seq<char>)| download_of(platform, directory, e),
    )
}

/// The requested identifiers that the catalog does not list, in the
/// request's order. The request for everything is never among them.
pub open spec fn unmatched_among(requested: Seq<Seq<char>>, versions: Seq<Seq<char>>) -> Seq<
    Seq<char>,
> {
    requested.filter(|v: Seq<char>| v != everything() && !versions.contains(v))
}

/// Whether `plan` is the plan for fetching what `requested` asks of the
/// catalog `entries`, for `platform`, into `directory`.
pub open spec fn is_download_plan(
    plan: DownloadPlan,
    requested: Seq<Seq<char>>,
    entries: Seq<(Seq<char>, Seq<char>)>,
    platform: Platform,
    directory: Seq<char>,
) -> bool {
    &&& download_views(plan.downloads@) == downloads_for(requested, entries, platform, directory)
    &&& texts(plan.unmatched@) == unmatched_among(
        requested,
        entries.map_values(|e: (Seq<char>, Seq<char>)| e.0),
    )
}

/// Whether `result` is the outcome of listing the releases `versions`: the
/// releases newest first, or the first identifier among them that is not
/// three dot-separated numbers.
pub open spec fn is_listing_outcome(
    versions: Seq<Seq<char>>,
    result: Result<Vec<String>, InstallError>,
) -> bool {
    match result {
        Ok(listing) => all_well_formed(versions) && texts(listing@) == newest_first(versions),
        Err(InstallError::MalformedVersion(bad)) => exists|k: int| #[trigger]
            first_malformed_at(versions, k) && bad@ == versions[k],
        Err(InstallError::Config(_)) => false,
    }
}

/// Whether `result` is the first step of an install of `requested` on a
/// host of `platform` whose user has the home directory `home`, or none.
///
/// An empty request needs the catalog only. Any other request needs the
/// artifact directory under the user's home, and fails without a home.
pub open spec fn is_install_step(
    result: Result<InstallStep, InstallError>,
    requested: Seq<Seq<char>>,
    platform: Platform,
    home: Option<Seq<char>>,
) -> bool {
    match result {
        Ok(InstallStep::FetchToList { catalog_url }) => {
            &&& requested.len() == 0
            &&& catalog_url@ == catalog_url_of(platform)
        },
        Ok(InstallStep::FetchToInstall { directory, catalog_url, platform: target }) => {
            &&& requested.len() > 0
            &&& home is Some
            &&& target == platform
            &&& catalog_url@ == catalog_url_of(platform)
            &&& directory@ == artifact_dir_under(home->0)
        },
        Err(InstallError::Config(e)) => {
            &&& requested.len() > 0
            &&& home is None
            &&& e == ConfigError::NoHomeDirectory
        },
        Err(InstallError::MalformedVersion(_)) => false,
    }
}

/// Lists the releases of the catalog, newest first by numeric triple.
///
/// Fails on a catalog that holds an identifier which is not three
/// dot-separated numbers, and names the first such identifier.
pub fn list_available(catalog: &Catalog) -> (result: Result<Vec<String>, InstallError>)
    ensures
        is_listing_outcome(catalog.versions(), result),
{
    let versions = catalog.version_list();
    match sort_newest_first(&versions) {
        Ok(listing) => Ok(listing),
        Err(k) => {
            assert(first_malformed_at(catalog.versions(), k as int));
            Err(InstallError::MalformedVersion(versions[k].clone()))
        },
    }
}

/// Plans the downloads that `requested` asks of `catalog`, for `platform`,
/// into `directory`.
///
/// Every entry of the catalog that is requested by name, or all of them if
/// `all` is among the requests, is fetched. A requested identifier that the
/// catalog does not list leads to no download and is reported as unmatched.
pub fn plan_downloads(
    requested: &Vec<String>,
    catalog: &Catalog,
    platform: Platform,
    directory: &str,
) -> (plan: DownloadPlan)
    requires
        catalog.wf(),
    ensures
        is_download_plan(plan, texts(requested@), catalog.entries(), platform, directory@),
{
    let ghost wanted = texts(requested@);
    let ghost entries = catalog.entries();
    let all = contains_text(requested, "all");
    let mut downloads: Vec<Download> = Vec::new();
    let mut i: usize = 0;
    proof {
        reveal(Seq::filter);
        assert(download_views(downloads@) =~= downloads_for(
            wanted,
            entries.take(0),
            platform,
            directory@,
        ));
    }
    while i < catalog.len()
        invariant
            i <= entries.len(),
            wanted == texts(requested@),
            entries == catalog.entries(),
            all == wanted.contains(everything()),
            download_views(downloads@) == downloads_for(
                wanted,
                entries.take(i as int),
                platform,
                directory@,
            ),
        decreases entries.len() - i,
    {
        let ghost entry = entries[i as int];
        let ghost sofar = downloads_for(wanted, entries.take(i as int), platform, directory@);
        proof {
            reveal(Seq::filter);
            assert(entries.take(i + 1).drop_last() =~= entries.take(i as int));
            assert(entries.take(i + 1).last() == entry);
        }
        let release = catalog.release(i);
        if all || contains_text(requested, release.version.as_str()) {
            let download = Download {
                version: release.version.clone(),
                url: artifact_url(platform, release.artifact.as_str()),
                path: artifact_path(directory, release.version.as_str()),
                mode: ARTIFACT_MODE,
            };
            assert(download@ == download_of(platform, directory@, entry));
            downloads.push(download);
            assert(downloads_for(wanted, entries.take(i + 1), platform, directory@) =~= sofar.push(
                download_of(platform, directory@, entry),
            ));
            assert(download_views(downloads@) =~= sofar.push(download@));
        } else {
            assert(downloads_for(wanted, entries.take(i + 1), platform, directory@) =~= sofar);
        }
        i += 1;
    }
    assert(entries.take(i as int) =~= entries);

    let ghost listed = catalog.versions();
    let mut unmatched: Vec<String> = Vec::new();
    let mut j: usize = 0;
    proof {
        reveal(Seq::filter);
        assert(texts(unmatched@) =~= unmatched_among(wanted.take(0), listed));
    }
    while j < requested.len()
        invariant
            j <= requested.len(),
            catalog.wf(),
            wanted == texts(requested@),
            listed == catalog.versions(),
            texts(unmatched@) == unmatched_among(wanted.take(j as int), listed),
        decreases requested.len() - j,
    {
        let ghost sofar = unmatched_among(wanted.take(j as int), listed);
        proof {
            reveal(Seq::filter);
            assert(wanted.take(j + 1).drop_last() =~= wanted.take(j as int));
            assert(wanted.take(j + 1).last() == wanted[j as int]);
        }
        let request = requested[j].as_str();
        if !same_text(request, "all") && !catalog.contains_version(request) {
            unmatched.push(requested[j].clone());
            assert(unmatched_among(wanted.take(j + 1), listed) =~= sofar.push(wanted[j as int]));
            assert(texts(unmatched@) =~= sofar.push(wanted[j as int]));
        } else {
            assert(unmatched_among(wanted.take(j + 1), listed) =~= sofar);
        }
        j += 1;
    }
    assert(wanted.take(j as int) =~= wanted);
    DownloadPlan { downloads, unmatched }
}

/// The mode of an installed artifact lets its owner, its group and
/// everyone else execute it.
pub proof fn lemma_artifact_mode_is_executable()
    ensures
        ARTIFACT_MODE & 0o111 == 0o111,
{
    assert(0o775u32 & 0o111 == 0o111) by (bit_vector);
}

/// Takes the first step of an install on a host of `platform` whose user
/// has the home directory `home`, if any.
///
/// An empty request asks for the listing of what is available, so only
/// the catalog is to be fetched. Any other request asks for downloads into
/// the artifact directory under `home`, which is to be there before the
/// catalog is fetched; without a home directory it fails.
pub fn install_step_for(requested: &Vec<String>, platform: Platform, home: Option<&str>) -> (result:
    Result<InstallStep, InstallError>)
    ensures
        is_install_step(
            result,
            texts(requested@),
            platform,
            match home {
                Some(h) => Some(h@),
                None => None,
            },
        ),
{
    let catalog_url = catalog_url(platform);
    if requested.len() == 0 {
        return Ok(InstallStep::FetchToList { catalog_url });
    }
    match home {
        Some(home) => Ok(
            InstallStep::FetchToInstall { directory: artifact_dir_in(home), catalog_url, platform },
        ),
        None => Err(InstallError::Config(ConfigError::NoHomeDirectory)),
    }
}

/// Takes the first step of an install, on the host this process runs on.
///
/// Which platform and which home directory the step is for is up to the
/// host. The step fails where the host has no supported platform, and
/// otherwise as [`install_step_for`] does. The home directory is looked up
/// only for a request that is not empty.
pub fn install_versions(to_install_versions: &Vec<String>) -> (result: Result<
    InstallStep,
    InstallError,
>)
    ensures
        match result {
            Err(InstallError::Config(ConfigError::UnsupportedPlatform)) => true,
            _ => exists|platform: Platform, home: Option<Seq<char>>| #[trigger]
                is_install_step(result, texts(to_install_versions@), platform, home),
        },
{
    let platform = match soliditylang_platform() {
        Ok(platform) => platform,
        Err(e) => {
            return Err(InstallError::Config(ConfigError::UnsupportedPlatform));
        },
    };
    if to_install_versions.len() == 0 {
        let result = install_step_for(to_install_versions, platform, None);
        assert(is_install_step(result, texts(to_install_versions@), platform, None));
        return result;
    }
    let home = home_dir();
    let result = match &home {
        Some(home) => install_step_for(to_install_versions, platform, Some(home.as_str())),
        None => install_step_for(to_install_versions, platform, None),
    };
    assert(is_install_step(
        result,
        texts(to_install_versions@),
        platform,
        match home {
            Some(h) => Some(h@),
            None => None,
        },
    ));
    result
}

} // verus!
