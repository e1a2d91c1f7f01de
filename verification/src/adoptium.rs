//! The upstream release schema shared by both vendors, and the selection of
//! the best candidate from a page of releases.

use vstd::prelude::*;

use crate::errors::CatalogError;
use crate::order::{compare_keys, key_cmp, qual_spec, qualifier_of, KeyModel, VersionKey,
    VersionOrdering};

verus! {

/// Number of candidates requested per upstream page.
pub const PAGE_SIZE: u64 = 10;

/// Vendor-reported snapshot of every published feature version, the subset
/// under long-term support, and the most recent feature version and feature
/// release (the two differ while a new line exists only as early access).
#[derive(Debug)]
pub struct AvailableReleases {
    pub available_lts_releases: Vec<u64>,
    pub available_releases: Vec<u64>,
    pub most_recent_feature_release: u64,
    pub most_recent_feature_version: u64,
    pub tip_version: u64,
}

impl AvailableReleases {
    /// The advertised feature versions form a set: no number repeats.
    pub open spec fn wf(self) -> bool {
        forall|i: int, j: int|
            0 <= i < j < self.available_releases@.len()
                ==> self.available_releases@[i] != self.available_releases@[j]
    }
}

/// Package for a particular binary.
#[derive(Debug)]
pub struct Package {
    pub checksum: String,
    pub checksum_link: String,
    pub download_count: u64,
    pub link: String,
    pub metadata_link: String,
    pub name: String,
    pub size: u64,
}

/// Information about a particular binary.
#[derive(Debug)]
pub struct Binary {
    pub architecture: String,
    pub download_count: u64,
    pub heap_size: String,
    pub image_type: String,
    pub jvm_impl: String,
    pub os: String,
    pub package: Package,
    pub project: String,
    pub scm_ref: String,
    pub updated_at: String,
}

/// Information about a source archive.
#[derive(Debug)]
pub struct Source {
    pub link: String,
    pub name: String,
    pub size: u64,
}

/// Version data of a release.
#[derive(Debug)]
pub struct VersionData {
    pub build: u64,
    pub major: u64,
    pub minor: u64,
    pub openjdk_version: String,
    pub security: u64,
    pub semver: String,
}

impl VersionData {
    /// The version key of this release: the numeric components plus the
    /// qualifier extracted from the semantic version string.
    pub open spec fn key_model(self) -> KeyModel {
        KeyModel {
            major: self.major,
            minor: self.minor,
            security: self.security,
            build: self.build,
            qualifier: qual_spec(self.semver@),
        }
    }

    /// Builds the version key used to order this release against others.
    pub fn version_key(&self) -> (k: VersionKey)
        ensures
            k@ == self.key_model(),
    {
        VersionKey {
            major: self.major,
            minor: self.minor,
            security: self.security,
            build: self.build,
            qualifier: qualifier_of(self.semver.as_str()),
        }
    }
}

/// Query parameters for a page request: the fixed platform filter shared by
/// both vendors, with the JVM implementation pinned only by the secondary
/// vendor.
#[derive(Debug)]
pub struct ReleaseQuery {
    pub architecture: String,
    pub heap_size: String,
    pub image_type: String,
    pub jvm_impl: Option<String>,
    pub os: String,
    pub page_size: u64,
    pub project: String,
}

impl ReleaseQuery {
    /// The fixed platform filter: architecture x64, normal heap, jdk image,
    /// linux, the standard page size, and the jdk project.
    pub fn standard(jvm_impl: Option<String>) -> (q: ReleaseQuery)
        ensures
            q.architecture@ == "x64"@,
            q.heap_size@ == "normal"@,
            q.image_type@ == "jdk"@,
            q.jvm_impl == jvm_impl,
            q.os@ == "linux"@,
            q.page_size == PAGE_SIZE,
            q.project@ == "jdk"@,
    {
        ReleaseQuery {
            architecture: "x64".to_owned(),
            heap_size: "normal".to_owned(),
            image_type: "jdk".to_owned(),
            jvm_impl,
            os: "linux".to_owned(),
            page_size: PAGE_SIZE,
            project: "jdk".to_owned(),
        }
    }
}

/// Information about a particular feature release.
#[derive(Debug)]
pub struct Release {
    pub binaries: Vec<Binary>,
    pub download_count: u64,
    pub id: String,
    pub release_link: String,
    pub release_type: String,
    pub source: Option<Source>,
    pub timestamp: String,
    pub updated_at: String,
    pub vendor: String,
    pub version_data: VersionData,
}

impl Release {
    /// The version key of this release.
    pub open spec fn key_model(self) -> KeyModel {
        self.version_data.key_model()
    }
}

/// Order of two releases: the order of their version keys.
pub open spec fn rel_cmp(a: Release, b: Release) -> VersionOrdering {
    key_cmp(a.key_model(), b.key_model())
}

/// Compares two releases by their version keys.
pub fn compare_releases(a: &Release, b: &Release) -> (r: VersionOrdering)
    ensures
        r == rel_cmp(*a, *b),
{
    let ka = a.version_data.version_key();
    let kb = b.version_data.version_key();
    compare_keys(&ka, &kb)
}

/// The index of the best release of a page: the one a forward scan keeps
/// when a candidate at least as high as the current best replaces it, so the
/// last of the highest version keys.
pub open spec fn best_index(page: Seq<Release>) -> int
    recommends
        page.len() > 0,
    decreases page.len(),
{
    if page.len() <= 1 {
        0
    } else {
        let prev = best_index(page.drop_last());
        if rel_cmp(page.last(), page[prev]) != VersionOrdering::Less {
            page.len() - 1
        } else {
            prev
        }
    }
}

/// The best release of a page is an element, no element is above it, and
/// every element after it is strictly below it.
pub proof fn lemma_best_index_props(page: Seq<Release>)
    requires
        page.len() > 0,
    ensures
        0 <= best_index(page) < page.len(),
        forall|j: int|
            0 <= j < page.len() ==> rel_cmp(page[j], page[best_index(page)])
                != VersionOrdering::Greater,
        forall|j: int|
            best_index(page) < j < page.len() ==> rel_cmp(page[j], page[best_index(page)])
                == VersionOrdering::Less,
    decreases page.len(),
{
    let b = best_index(page);
    if page.len() == 1 {
        crate::order::lemma_key_cmp_trichotomy(page[0].key_model(), page[0].key_model());
    } else {
        let rest = page.drop_last();
        let prev = best_index(rest);
        lemma_best_index_props(rest);
        assert(forall|j: int| 0 <= j < rest.len() ==> rest[j] == page[j]);
        crate::order::lemma_key_cmp_trichotomy(page.last().key_model(), page[prev].key_model());
        if rel_cmp(page.last(), page[prev]) != VersionOrdering::Less {
            assert(b == page.len() - 1);
            assert forall|j: int| 0 <= j < page.len() implies rel_cmp(page[j], page[b])
                != VersionOrdering::Greater by {
                if j < page.len() - 1 {
                    assert(rest[j] == page[j]);
                    assert(rest[prev] == page[prev]);
                    assert(rel_cmp(rest[j], rest[best_index(rest)]) != VersionOrdering::Greater);
                    assert(page[b] == page.last());
                    assert(rel_cmp(page[prev], page[b]) != VersionOrdering::Greater);
                    crate::order::lemma_key_cmp_le_transitive(
                        page[j].key_model(),
                        page[prev].key_model(),
                        page[b].key_model(),
                    );
                } else {
                    crate::order::lemma_key_cmp_trichotomy(
                        page[j].key_model(),
                        page[j].key_model(),
                    );
                }
            }
        } else {
            assert(b == prev);
            assert(rel_cmp(page.last(), page[b]) == VersionOrdering::Less);
        }
    }
}

/// Selects the best candidate of a page under the version order, or reports
/// that the page was empty. No element of the page is above the result, and
/// the result is the last of the highest candidates.
pub fn best_release(version: u64, page: Vec<Release>) -> (r: Result<Release, CatalogError>)
    ensures
        r is Ok <==> page@.len() > 0,
        r matches Ok(rel) ==> {
            &&& rel == page@[best_index(page@)]
            &&& forall|j: int|
                0 <= j < page@.len() ==> rel_cmp(page@[j], rel) != VersionOrdering::Greater
        },
        r matches Err(e) ==> e == (CatalogError::NoCandidates { version }),
{
    let mut page = page;
    let ghost full = page@;
    let n = page.len();
    if n == 0 {
        return Err(CatalogError::NoCandidates { version });
    }
    let mut best: usize = 0;
    let mut i: usize = 1;
    proof {
        assert(full.take(1).len() == 1);
        assert(best_index(full.take(1)) == 0);
    }
    while i < n
        invariant
            1 <= i <= n,
            n == page.len(),
            page@ == full,
            best < i,
            best == best_index(full.take(i as int)),
        decreases n - i,
    {
        let c = compare_releases(&page[i], &page[best]);
        proof {
            let pre = full.take(i as int);
            let cur = full.take(i + 1);
            assert(cur.drop_last() =~= pre);
            assert(cur.last() == full[i as int]);
            assert(cur[best as int] == full[best as int]);
        }
        if c != VersionOrdering::Less {
            best = i;
        }
        i = i + 1;
    }
    proof {
        assert(full.take(n as int) =~= full);
        lemma_best_index_props(full);
    }
    let rel = page.swap_remove(best);
    Ok(rel)
}

} // verus!
