//! What installing does to the store, stated over a model of the artifact
//! directory: the list of its entries' names.
//!
//! Writing a file into a directory adds its name to the listing, once;
//! writing it again changes the file and not the listing. A release whose
//! identifier holds a `/` would be written elsewhere, so these laws speak
//! of identifiers as the release server publishes them, without one.

use crate::install::{download_of, downloads_for, is_wanted, DownloadView, ARTIFACT_MODE};
use crate::paths::artifact_name;
use crate::platform::Platform;
use crate::store::{installed_among, is_artifact_name, lemma_artifact_name_round_trip, version_named};
use vstd::prelude::*;

verus! {

/// The listing of a directory after a file named `name` has been written
/// into it.
pub open spec fn listing_with(entries: Seq<Seq<char>>, name: Seq<char>) -> Seq<Seq<char>> {
    if entries.contains(name) {
        entries
    } else {
        entries.push(name)
    }
}

/// The listing of the artifact directory after every download of a plan
/// has been carried out, in the plan's order.
pub open spec fn listing_after(entries: Seq<Seq<char>>, downloads: Seq<DownloadView>) -> Seq<
    Seq<char>,
>
    decreases downloads.len(),
{
    if downloads.len() == 0 {
        entries
    } else {
        listing_with(
            listing_after(entries, downloads.drop_last()),
            artifact_name(downloads.last().version),
        )
    }
}

/// Carrying out downloads removes nothing from the listing, and leaves the
/// artifact of every one of them in it.
proof fn lemma_listing_grows(entries: Seq<Seq<char>>, downloads: Seq<DownloadView>)
    ensures
        forall|name: Seq<char>|
            entries.contains(name) ==> #[trigger] listing_after(entries, downloads).contains(name),
        forall|k: int|
            0 <= k < downloads.len() ==> listing_after(entries, downloads).contains(
                artifact_name(#[trigger] downloads[k].version),
            ),
    decreases downloads.len(),
{
    if downloads.len() > 0 {
        let before = listing_after(entries, downloads.drop_last());
        let name = artifact_name(downloads.last().version);
        let after = listing_with(before, name);
        lemma_listing_grows(entries, downloads.drop_last());
        assert forall|other: Seq<char>| before.contains(other) implies after.contains(other) by {
            if !before.contains(name) {
                let k = choose|k: int| 0 <= k < before.len() && before[k] == other;
                assert(after[k] == other);
            }
        }
        assert(after.contains(name)) by {
            if !before.contains(name) {
                assert(after[before.len() as int] == name);
            }
        }
        assert forall|k: int| 0 <= k < downloads.len() implies after.contains(
            artifact_name(#[trigger] downloads[k].version),
        ) by {
            if k < downloads.len() - 1 {
                assert(downloads.drop_last()[k] == downloads[k]);
            }
        }
    }
}

/// Downloads whose artifacts are all in the listing leave it as it is.
proof fn lemma_listing_settled(entries: Seq<Seq<char>>, downloads: Seq<DownloadView>)
    requires
        forall|k: int|
            0 <= k < downloads.len() ==> entries.contains(
                artifact_name(#[trigger] downloads[k].version),
            ),
    ensures
        listing_after(entries, downloads) == entries,
    decreases downloads.len(),
{
    if downloads.len() > 0 {
        assert forall|k: int| 0 <= k < downloads.drop_last().len() implies entries.contains(
            artifact_name(#[trigger] downloads.drop_last()[k].version),
        ) by {
            assert(downloads.drop_last()[k] == downloads[k]);
        }
        lemma_listing_settled(entries, downloads.drop_last());
        assert(entries.contains(artifact_name(downloads[downloads.len() - 1].version)));
    }
}

/// A listing that holds the artifact of a release shows it as installed.
pub proof fn lemma_listed_artifact_is_installed(entries: Seq<Seq<char>>, version: Seq<char>)
    requires
        entries.contains(artifact_name(version)),
    ensures
        installed_among(entries).contains(version),
{
    let name = artifact_name(version);
    let named = |n: Seq<char>| is_artifact_name(n);
    let kept = entries.filter(named);
    lemma_artifact_name_round_trip(version);
    let k = choose|k: int| 0 <= k < entries.len() && entries[k] == name;
    entries.lemma_filter_contains(named, k);
    let j = choose|j: int| 0 <= j < kept.len() && kept[j] == name;
    assert(installed_among(entries)[j] == version_named(kept[j]));
}

/// Every wanted entry of the catalog has its download in the plan, and
/// every download of the plan asks for the executable permission bits.
pub proof fn lemma_plan_covers_request(
    requested: Seq<Seq<char>>,
    catalog: Seq<(Seq<char>, Seq<char>)>,
    platform: Platform,
    directory: Seq<char>,
    k: int,
)
    requires
        0 <= k < catalog.len(),
        is_wanted(requested, catalog[k].0),
    ensures
        downloads_for(requested, catalog, platform, directory).contains(
            download_of(platform, directory, catalog[k]),
        ),
        forall|j: int|
            0 <= j < downloads_for(requested, catalog, platform, directory).len() ==> (
            #[trigger] downloads_for(requested, catalog, platform, directory)[j]).mode
                == ARTIFACT_MODE,
{
    let wanted = |e: (Seq<char>, Seq<char>)| is_wanted(requested, e.0);
    let kept = catalog.filter(wanted);
    let plan = downloads_for(requested, catalog, platform, directory);
    catalog.lemma_filter_contains(wanted, k);
    let j = choose|j: int| 0 <= j < kept.len() && kept[j] == catalog[k];
    assert(plan[j] == download_of(platform, directory, catalog[k]));
}

/// Installing makes installed: once the plan for a request has been
/// carried out, every release that the catalog lists and the request
/// asked for, by name or by asking for everything, is among the installed
/// releases, whatever the store held before.
pub proof fn lemma_install_installs(
    entries: Seq<Seq<char>>,
    requested: Seq<Seq<char>>,
    catalog: Seq<(Seq<char>, Seq<char>)>,
    platform: Platform,
    directory: Seq<char>,
    version: Seq<char>,
)
    requires
        catalog.map_values(|e: (Seq<char>, Seq<char>)| e.0).contains(version),
        is_wanted(requested, version),
    ensures
        installed_among(
            listing_after(entries, downloads_for(requested, catalog, platform, directory)),
        ).contains(version),
{
    let versions = catalog.map_values(|e: (Seq<char>, Seq<char>)| e.0);
    let plan = downloads_for(requested, catalog, platform, directory);
    let k = choose|k: int| 0 <= k < versions.len() && versions[k] == version;
    assert(catalog[k].0 == version);
    lemma_plan_covers_request(requested, catalog, platform, directory, k);
    let j = choose|j: int|
        0 <= j < plan.len() && plan[j] == download_of(platform, directory, catalog[k]);
    assert(plan[j].version == version);
    lemma_listing_grows(entries, plan);
    lemma_listed_artifact_is_installed(listing_after(entries, plan), version);
}

/// Installing is idempotent on the listing: carrying a plan out a second
/// time leaves the directory's entries, and so the installed releases, as
/// the first time left them. Only the files' contents are written anew.
pub proof fn lemma_install_twice(entries: Seq<Seq<char>>, downloads: Seq<DownloadView>)
    ensures
        listing_after(listing_after(entries, downloads), downloads) == listing_after(
            entries,
            downloads,
        ),
        installed_among(listing_after(listing_after(entries, downloads), downloads))
            == installed_among(listing_after(entries, downloads)),
{
    lemma_listing_grows(entries, downloads);
    lemma_listing_settled(listing_after(entries, downloads), downloads);
}

} // verus!
