//! The release catalog: which releases the server publishes for a
//! platform, and under which file name each can be fetched.

use crate::platform::Platform;
use crate::text::same_text;
use vstd::prelude::*;
use vstd::string::StringExecFns;

verus! {

/// One published release.
#[derive(Clone, Debug, PartialEq, Eq)]
pub struct Release {
    /// The release's identifier, such as `0.8.4`.
    pub version: String,
    /// The name of the file that the server keeps the release under.
    pub artifact: String,
}

/// A mapping from release identifiers to artifact file names. It remembers
/// the order in which its identifiers were first recorded.
#[derive(Clone, Debug)]
pub struct Catalog {
    releases: Vec<Release>,
}

/// The entries that result from recording `artifact` under `version`: a new
/// identifier is added at the end, a known one keeps its place and has its
/// artifact replaced.
pub open spec fn recorded(
    entries: Seq<(Seq<char>, Seq<char>)>,
    version: Seq<char>,
    artifact: Seq<char>,
) -> Seq<(Seq<char>, Seq<char>)> {
    let versions = entries.map_values(|e: (Seq<char>, Seq<char>)| e.0);
    if versions.contains(version) {
        entries.update(versions.index_of(version), (version, artifact))
    } else {
        entries.push((version, artifact))
    }
}

/// The entries that result from recording each pair of `pairs` in turn,
/// starting from nothing.
pub open spec fn recorded_all(pairs: Seq<(Seq<char>, Seq<char>)>) -> Seq<(Seq<char>, Seq<char>)>
    decreases pairs.len(),
{
    if pairs.len() == 0 {
        Seq::empty()
    } else {
        recorded(recorded_all(pairs.drop_last()), pairs.last().0, pairs.last().1)
    }
}

/// The mapping that a list of pairs describes when a later pair overrides
/// an earlier one with the same identifier.
pub open spec fn mapping_of(pairs: Seq<(Seq<char>, Seq<char>)>) -> Map<Seq<char>, Seq<char>>
    decreases pairs.len(),
{
    if pairs.len() == 0 {
        Map::empty()
    } else {
        mapping_of(pairs.drop_last()).insert(pairs.last().0, pairs.last().1)
    }
}

/// The `(identifier, artifact)` pairs that a list of string pairs holds.
pub open spec fn pair_texts(pairs: Seq<(String, String)>) -> Seq<(Seq<char>, Seq<char>)> {
    pairs.map_values(|p: (String, String)| (p.0@, p.1@))
}

/// The address of the catalog for `platform`.
pub open spec fn catalog_url_of(platform: Platform) -> Seq<char> {
    "https://binaries.soliditylang.org/"@ + platform.key() + "/list.json"@
}

/// The address of the file `artifact` among the releases for `platform`.
pub open spec fn artifact_url_of(platform: Platform, artifact: Seq<char>) -> Seq<char> {
    "https://binaries.soliditylang.org/"@ + platform.key() + "/"@ + artifact
}

impl View for Catalog {
    type V = Map<Seq<char>, Seq<char>>;

    /// The catalog as a mapping from identifiers to artifacts.
    open spec fn view(&self) -> Map<Seq<char>, Seq<char>> {
        Map::new(|v: Seq<char>| self.lists(v), |v: Seq<char>| self.artifact_of(v))
    }
}

impl Catalog {
    /// The `(identifier, artifact)` pairs of the catalog, in the order in
    /// which the identifiers were first recorded.
    pub closed spec fn entries(&self) -> Seq<(Seq<char>, Seq<char>)> {
        self.releases@.map_values(|r: Release| (r.version@, r.artifact@))
    }

    /// The identifiers of the catalog, in the order of its entries.
    pub open spec fn versions(&self) -> Seq<Seq<char>> {
        self.entries().map_values(|e: (Seq<char>, Seq<char>)| e.0)
    }

    /// What every catalog built by this crate satisfies: no identifier is
    /// recorded twice.
    pub open spec fn wf(&self) -> bool {
        self.versions().no_duplicates()
    }

    /// Whether the catalog lists release `version`.
    pub open spec fn lists(&self, version: Seq<char>) -> bool {
        self.versions().contains(version)
    }

    /// The artifact recorded for a listed release.
    pub open spec fn artifact_of(&self, version: Seq<char>) -> Seq<char> {
        self.entries()[self.versions().index_of(version)].1
    }

    /// A catalog without releases.
    pub fn new() -> (catalog: Catalog)
        ensures
            catalog.entries() == Seq::<(Seq<char>, Seq<char>)>::empty(),
            catalog@ == Map::<Seq<char>, Seq<char>>::empty(),
            catalog.wf(),
    {
        let catalog = Catalog { releases: Vec::new() };
        assert(catalog.entries() =~= Seq::<(Seq<char>, Seq<char>)>::empty());
        assert(catalog@ =~= Map::<Seq<char>, Seq<char>>::empty());
        catalog
    }

    /// The number of releases.
    pub fn len(&self) -> (n: usize)
        ensures
            n == self.entries().len(),
    {
        self.releases.len()
    }

    /// The release at position `i`.
    pub fn release(&self, i: usize) -> (release: &Release)
        requires
            i < self.entries().len(),
        ensures
            (release.version@, release.artifact@) == self.entries()[i as int],
    {
        &self.releases[i]
    }

    /// Where `version` stands among the entries, if it is listed.
    pub fn position(&self, version: &str) -> (at: Option<usize>)
        requires
            self.wf(),
        ensures
            match at {
                Some(i) => i < self.entries().len() && self.lists(version@)
                    && self.versions().index_of(version@) == i,
                None => !self.lists(version@),
            },
    {
        let mut i: usize = 0;
        while i < self.releases.len()
            invariant
                i <= self.releases.len(),
                self.wf(),
                forall|k: int| 0 <= k < i ==> self.versions()[k] != version@,
            decreases self.releases.len() - i,
        {
            if same_text(self.releases[i].version.as_str(), version) {
                assert(self.versions()[i as int] == version@);
                return Some(i);
            }
            i += 1;
        }
        None
    }

    /// Whether the catalog lists release `version`.
    pub fn contains_version(&self, version: &str) -> (listed: bool)
        requires
            self.wf(),
        ensures
            listed == self.lists(version@),
    {
        self.position(version).is_some()
    }

    /// The artifact recorded for release `version`, if it is listed.
    pub fn artifact(&self, version: &str) -> (found: Option<&String>)
        requires
            self.wf(),
        ensures
            match found {
                Some(name) => self.lists(version@) && name@ == self.artifact_of(version@),
                None => !self.lists(version@),
            },
    {
        match self.position(version) {
            Some(i) => Some(&self.releases[i].artifact),
            None => None,
        }
    }

    /// The identifiers of the catalog, in the order of its entries.
    pub fn version_list(&self) -> (list: Vec<String>)
        ensures
            crate::text::texts(list@) == self.versions(),
    {
        let mut list: Vec<String> = Vec::new();
        let mut i: usize = 0;
        while i < self.releases.len()
            invariant
                i <= self.releases.len(),
                crate::text::texts(list@) == self.versions().take(i as int),
            decreases self.releases.len() - i,
        {
            let ghost listed = crate::text::texts(list@);
            list.push(self.releases[i].version.clone());
            assert(self.versions()[i as int] == self.releases@[i as int].version@);
            assert(crate::text::texts(list@) =~= listed.push(self.versions()[i as int]));
            assert(self.versions().take(i + 1) =~= self.versions().take(i as int).push(
                self.versions()[i as int],
            ));
            i += 1;
        }
        assert(self.versions().take(i as int) =~= self.versions());
        list
    }

    /// Records `artifact` under `version`, replacing what was recorded
    /// under that identifier before.
    pub fn insert(&mut self, version: String, artifact: String)
        requires
            old(self).wf(),
        ensures
            final(self).entries() == recorded(old(self).entries(), version@, artifact@),
            final(self)@ == old(self)@.insert(version@, artifact@),
            final(self).wf(),
    {
        let ghost before = self.versions();
        let ghost pairs = self.entries();
        match self.position(version.as_str()) {
            Some(i) => {
                self.releases.set(i, Release { version, artifact });
                assert(self.entries() =~= recorded(old(self).entries(), version@, artifact@));
                assert(self.versions() =~= before);
            },
            None => {
                self.releases.push(Release { version, artifact });
                assert(self.entries() =~= recorded(old(self).entries(), version@, artifact@));
                assert(self.versions() =~= before.push(version@));
            },
        }
        proof {
            let after = self.versions();
            assert forall|v: Seq<char>| after.contains(v) <==> (v == version@ || before.contains(
                v,
            )) by {
                if before.contains(v) {
                    let k = before.index_of(v);
                    assert(after[k] == v);
                }
                if v == version@ && !before.contains(v) {
                    assert(after[before.len() as int] == v);
                }
            }
            assert forall|v: Seq<char>| after.contains(v) implies #[trigger] self.artifact_of(v)
                == (if v == version@ {
                artifact@
            } else {
                old(self).artifact_of(v)
            }) by {
                let k = after.index_of(v);
                if v != version@ {
                    assert(before[k] == v);
                    assert(before.index_of(v) == k);
                    assert(self.entries()[k] == pairs[k]);
                }
            }
            assert(self@ =~= old(self)@.insert(version@, artifact@));
        }
    }
}

/// Builds the catalog from the `(identifier, artifact)` pairs that the
/// release server published. Where an identifier comes twice, the later
/// artifact stands.
pub fn get_available_versions(releases: Vec<(String, String)>) -> (catalog: Catalog)
    ensures
        catalog.entries() == recorded_all(pair_texts(releases@)),
        catalog@ == mapping_of(pair_texts(releases@)),
        catalog.wf(),
{
    let ghost pairs = pair_texts(releases@);
    let mut catalog = Catalog::new();
    let mut i: usize = 0;
    assert(pairs.take(0) =~= Seq::<(Seq<char>, Seq<char>)>::empty());
    assert(catalog@ =~= mapping_of(pairs.take(0)));
    while i < releases.len()
        invariant
            i <= releases.len(),
            pairs == pair_texts(releases@),
            catalog.entries() == recorded_all(pairs.take(i as int)),
            catalog@ == mapping_of(pairs.take(i as int)),
            catalog.wf(),
        decreases releases.len() - i,
    {
        assert(pairs.take(i + 1).drop_last() =~= pairs.take(i as int));
        assert(pairs.take(i + 1).last() == pairs[i as int]);
        catalog.insert(releases[i].0.clone(), releases[i].1.clone());
        i += 1;
    }
    assert(pairs.take(i as int) =~= pairs);
    catalog
}

/// The address to fetch the catalog for `platform` from.
pub fn catalog_url(platform: Platform) -> (url: String)
    ensures
        url@ == catalog_url_of(platform),
{
    let mut url = String::from_str("https://binaries.soliditylang.org/");
    url.append(platform.catalog_key());
    url.append("/list.json");
    url
}

/// The address to fetch the file `artifact` for `platform` from.
pub fn artifact_url(platform: Platform, artifact: &str) -> (url: String)
    ensures
        url@ == artifact_url_of(platform, artifact@),
{
    let mut url = String::from_str("https://binaries.soliditylang.org/");
    url.append(platform.catalog_key());
    url.append("/");
    url.append(artifact);
    url
}

} // verus!
