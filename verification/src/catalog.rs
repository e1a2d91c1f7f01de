//! The published catalog: resolved releases, their per-vendor mapping, and
//! the assembly of the final structure with its `latest`, `stable` and `lts`
//! pointers.

use vstd::prelude::*;

use crate::adoptium;
use crate::errors::{CatalogError, PointerKind};
use crate::order::lemma_lex_equal_iff;
use crate::order::{lex_compare, VersionOrdering};
use crate::slug::{slug_of, slug_spec};

verus! {

/// Mathematical model of a resolved release.
#[verifier::ext_equal]
pub struct ReleaseModel {
    pub link: Seq<char>,
    pub major_version: u64,
    pub java_version: Seq<char>,
    pub early_access: bool,
    pub sha256: Seq<char>,
}

/// A resolved release: the download link, feature version, full version
/// string, maturity flag and content hash that the published catalog
/// carries.
#[derive(Debug)]
pub struct Release {
    pub link: String,
    pub major_version: u64,
    pub java_version: String,
    pub early_access: bool,
    pub sha256: String,
}

impl View for Release {
    type V = ReleaseModel;

    open spec fn view(&self) -> ReleaseModel {
        ReleaseModel {
            link: self.link@,
            major_version: self.major_version,
            java_version: self.java_version@,
            early_access: self.early_access,
            sha256: self.sha256@,
        }
    }
}

impl Clone for Release {
    fn clone(&self) -> (r: Self)
        ensures
            r@ == self@,
    {
        Release {
            link: self.link.clone(),
            major_version: self.major_version,
            java_version: self.java_version.clone(),
            early_access: self.early_access,
            sha256: self.sha256.clone(),
        }
    }
}

/// One vendor's published catalog: every resolved release keyed by slug,
/// and the three derived pointers.
#[derive(Debug)]
pub struct Sources {
    pub versions: Vec<(String, Release)>,
    pub latest: Release,
    pub stable: Release,
    pub lts: Release,
}

/// The whole output for one platform: one published catalog per vendor.
#[derive(Debug)]
pub struct System {
    pub temurin: Sources,
    pub semeru: Sources,
}

/// First-match lookup in a sequence of keyed entries.
pub open spec fn spec_get<V>(s: Seq<(u64, V)>, k: u64) -> Option<V>
    decreases s.len(),
{
    if s.len() == 0 {
        None
    } else if s[0].0 == k {
        Some(s[0].1)
    } else {
        spec_get(s.skip(1), k)
    }
}

/// A successful lookup returns the value of an entry that carries the key.
pub proof fn lemma_spec_get_some(s: Seq<(u64, Release)>, k: u64)
    requires
        spec_get(s, k) is Some,
    ensures
        exists|i: int|
            0 <= i < s.len() && s[i].0 == k && s[i].1 == spec_get(s, k).unwrap(),
    decreases s.len(),
{
    if s.len() > 0 && s[0].0 != k {
        lemma_spec_get_some(s.skip(1), k);
        let i = choose|i: int|
            0 <= i < s.skip(1).len() && s.skip(1)[i].0 == k && s.skip(1)[i].1 == spec_get(
                s.skip(1),
                k,
            ).unwrap();
        assert(s[i + 1] == s.skip(1)[i]);
    }
}

/// Finds the entry for a feature version, first match.
#[verifier::loop_isolation(false)]
fn find_release(catalog: &Vec<(u64, Release)>, key: u64) -> (r: Option<&Release>)
    ensures
        match r {
            Some(rel) => spec_get(catalog@, key) == Some(*rel),
            None => spec_get(catalog@, key) is None,
        },
{
    let n = catalog.len();
    let mut i: usize = 0;
    proof {
        assert(catalog@.skip(0) =~= catalog@);
    }
    while i < n
        invariant
            i <= n,
            spec_get(catalog@, key) == spec_get(catalog@.skip(i as int), key),
        decreases n - i,
    {
        proof {
            assert(catalog@.skip(i as int)[0] == catalog@[i as int]);
            assert(catalog@.skip(i as int).skip(1) =~= catalog@.skip(i + 1));
        }
        if catalog[i].0 == key {
            return Some(&catalog[i].1);
        }
        i = i + 1;
    }
    None
}

/// Resolves one candidate release: checks that exactly one binary matched
/// the platform filter and attaches the content hash computed for its
/// download link. The maturity flag records whether the candidate was an
/// early-access build.
pub fn resolve_release(version: u64, value: &adoptium::Release, sha256: String) -> (r: Result<
    Release,
    CatalogError,
>)
    ensures
        r is Ok <==> value.binaries@.len() == 1,
        r matches Ok(rel) ==> rel@ == (ReleaseModel {
            link: value.binaries@[0].package.link@,
            major_version: value.version_data.major,
            java_version: value.version_data.openjdk_version@,
            early_access: value.release_type@ == "ea"@,
            sha256: sha256@,
        }),
        r matches Err(e) ==> e == (CatalogError::Schema { version }),
{
    if value.binaries.len() == 1 {
        let cmp = lex_compare(value.release_type.as_str(), "ea");
        let ea = matches!(cmp, VersionOrdering::Equal);
        proof {
            lemma_lex_equal_iff(value.release_type@, "ea"@);
        }
        Ok(
            Release {
                link: value.binaries[0].package.link.clone(),
                major_version: value.version_data.major,
                java_version: value.version_data.openjdk_version.clone(),
                early_access: ea,
                sha256,
            },
        )
    } else {
        Err(CatalogError::Schema { version })
    }
}

/// Whether an entry can be resolved with the hash computed for it: exactly
/// one binary, and a hash that the hashing collaborator produced.
pub open spec fn resolve_ok(e: (u64, adoptium::Release), h: Option<String>) -> bool {
    e.1.binaries@.len() == 1 && h is Some
}

/// The model of a resolved entry.
pub open spec fn resolved_model(e: (u64, adoptium::Release), h: Option<String>) -> ReleaseModel
    recommends
        resolve_ok(e, h),
{
    ReleaseModel {
        link: e.1.binaries@[0].package.link@,
        major_version: e.1.version_data.major,
        java_version: e.1.version_data.openjdk_version@,
        early_access: e.1.release_type@ == "ea"@,
        sha256: match h {
            Some(s) => s@,
            None => Seq::empty(),
        },
    }
}

/// The error an unresolvable entry turns into: the binary count is checked
/// before the hash is needed.
pub open spec fn resolve_err(e: (u64, adoptium::Release), h: Option<String>) -> CatalogError {
    if e.1.binaries@.len() != 1 {
        CatalogError::Schema { version: e.0 }
    } else {
        CatalogError::Hashing { version: e.0 }
    }
}

/// The position of the first unresolvable entry (the length when every
/// entry resolves).
pub open spec fn first_unresolved(
    es: Seq<(u64, adoptium::Release)>,
    hs: Seq<Option<String>>,
) -> int
    decreases es.len(),
{
    if es.len() == 0 {
        0
    } else if !resolve_ok(es[0], hs[0]) {
        0
    } else {
        1 + first_unresolved(es.skip(1), hs.skip(1))
    }
}

proof fn lemma_first_unresolved(es: Seq<(u64, adoptium::Release)>, hs: Seq<Option<String>>, i: int)
    requires
        es.len() == hs.len(),
        0 <= i <= es.len(),
        forall|j: int| 0 <= j < i ==> resolve_ok(es[j], hs[j]),
        i < es.len() ==> !resolve_ok(es[i], hs[i]),
    ensures
        first_unresolved(es, hs) == i,
    decreases i,
{
    if i > 0 {
        assert(resolve_ok(es[0], hs[0]));
        assert forall|j: int| 0 <= j < i - 1 implies resolve_ok(es.skip(1)[j], hs.skip(1)[j]) by {
            assert(es.skip(1)[j] == es[j + 1]);
            assert(hs.skip(1)[j] == hs[j + 1]);
        }
        if i - 1 < es.skip(1).len() {
            assert(es.skip(1)[i - 1] == es[i]);
            assert(hs.skip(1)[i - 1] == hs[i]);
        }
        lemma_first_unresolved(es.skip(1), hs.skip(1), i - 1);
    }
}

/// Resolves a whole vendor catalog: each candidate with the hash computed
/// for its link, in order, stopping at the first entry that has other than
/// one binary or no hash.
#[verifier::loop_isolation(false)]
pub fn resolve_catalog(entries: Vec<(u64, adoptium::Release)>, hashes: Vec<Option<String>>) -> (r:
    Result<Vec<(u64, Release)>, CatalogError>)
    requires
        hashes@.len() == entries@.len(),
    ensures
        r is Ok <==> (forall|i: int|
            0 <= i < entries@.len() ==> resolve_ok(entries@[i], hashes@[i])),
        r matches Ok(out) ==> {
            &&& out@.len() == entries@.len()
            &&& forall|i: int|
                0 <= i < entries@.len() ==> (#[trigger] out@[i]).0 == entries@[i].0
                    && out@[i].1@ == resolved_model(entries@[i], hashes@[i])
        },
        r matches Err(e) ==> {
            let k = first_unresolved(entries@, hashes@);
            &&& 0 <= k < entries@.len()
            &&& !resolve_ok(entries@[k], hashes@[k])
            &&& e == resolve_err(entries@[k], hashes@[k])
        },
{
    let ghost es = entries@;
    let ghost hs = hashes@;
    let mut entries = entries;
    let mut hashes = hashes;
    let n = entries.len();
    let mut out: Vec<(u64, Release)> = Vec::new();
    let mut i: usize = 0;
    while i < n
        invariant
            i <= n,
            n == es.len(),
            entries@ == es.skip(i as int),
            hashes@ == hs.skip(i as int),
            out@.len() == i,
            forall|j: int| 0 <= j < i ==> resolve_ok(es[j], hs[j]),
            forall|j: int|
                0 <= j < i ==> (#[trigger] out@[j]).0 == es[j].0 && out@[j].1@ == resolved_model(
                    es[j],
                    hs[j],
                ),
        decreases n - i,
    {
        let e = entries.remove(0);
        let h = hashes.remove(0);
        proof {
            assert(e == es.skip(i as int)[0]);
            assert(h == hs.skip(i as int)[0]);
            assert(es.skip(i as int)[0] == es[i as int]);
            assert(hs.skip(i as int)[0] == hs[i as int]);
            assert(es.skip(i as int).skip(1) =~= es.skip(i + 1));
            assert(hs.skip(i as int).skip(1) =~= hs.skip(i + 1));
        }
        let version = e.0;
        match h {
            None => {
                let err = if e.1.binaries.len() != 1 {
                    CatalogError::Schema { version }
                } else {
                    CatalogError::Hashing { version }
                };
                proof {
                    assert(!resolve_ok(es[i as int], hs[i as int]));
                    lemma_first_unresolved(es, hs, i as int);
                }
                return Err(err);
            },
            Some(sha) => {
                match resolve_release(version, &e.1, sha) {
                    Ok(rel) => {
                        out.push((version, rel));
                    },
                    Err(err) => {
                        proof {
                            assert(!resolve_ok(es[i as int], hs[i as int]));
                            lemma_first_unresolved(es, hs, i as int);
                        }
                        return Err(err);
                    },
                }
            },
        }
        i = i + 1;
    }
    Ok(out)
}

/// The largest number of a non-empty sequence.
pub open spec fn seq_max(s: Seq<u64>) -> u64
    recommends
        s.len() > 0,
    decreases s.len(),
{
    if s.len() <= 1 {
        s[0]
    } else {
        let m = seq_max(s.drop_last());
        if s.last() > m {
            s.last()
        } else {
            m
        }
    }
}

proof fn lemma_seq_max_props(s: Seq<u64>)
    requires
        s.len() > 0,
    ensures
        s.contains(seq_max(s)),
        forall|i: int| 0 <= i < s.len() ==> s[i] <= seq_max(s),
    decreases s.len(),
{
    if s.len() > 1 {
        lemma_seq_max_props(s.drop_last());
        assert(forall|i: int| 0 <= i < s.len() - 1 ==> s.drop_last()[i] == s[i]);
        if !(s.last() > seq_max(s.drop_last())) {
            let i = choose|i: int| 0 <= i < s.drop_last().len() && s.drop_last()[i] == seq_max(
                s.drop_last(),
            );
            assert(s[i] == seq_max(s));
        } else {
            assert(s[s.len() - 1] == seq_max(s));
        }
    } else {
        assert(s[0] == seq_max(s));
    }
}

/// The largest number of a vector, or nothing when it is empty.
#[verifier::loop_isolation(false)]
pub fn max_of(v: &Vec<u64>) -> (r: Option<u64>)
    ensures
        match r {
            Some(m) => {
                &&& v@.len() > 0
                &&& m == seq_max(v@)
                &&& v@.contains(m)
                &&& forall|i: int| 0 <= i < v@.len() ==> v@[i] <= m
            },
            None => v@.len() == 0,
        },
{
    let n = v.len();
    if n == 0 {
        return None;
    }
    let mut m = v[0];
    let mut i: usize = 1;
    proof {
        assert(v@.take(1).len() == 1);
        assert(v@.take(1)[0] == v@[0]);
    }
    while i < n
        invariant
            1 <= i <= n,
            m == seq_max(v@.take(i as int)),
        decreases n - i,
    {
        proof {
            let cur = v@.take(i + 1);
            assert(cur.drop_last() =~= v@.take(i as int));
            assert(cur.last() == v@[i as int]);
        }
        if v[i] > m {
            m = v[i];
        }
        i = i + 1;
    }
    proof {
        assert(v@.take(n as int) =~= v@);
        lemma_seq_max_props(v@);
    }
    Some(m)
}

/// Whether all three pointer targets are among the resolved versions.
pub open spec fn pointers_present(
    catalog: Seq<(u64, Release)>,
    latest_key: u64,
    stable_key: u64,
    lts_key: u64,
) -> bool {
    spec_get(catalog, latest_key) is Some && spec_get(catalog, stable_key) is Some && spec_get(
        catalog,
        lts_key,
    ) is Some
}

/// The error reported for the first missing pointer target, `latest` before
/// `stable` before `lts`.
pub open spec fn assemble_err(
    catalog: Seq<(u64, Release)>,
    latest_key: u64,
    stable_key: u64,
    lts_key: u64,
) -> CatalogError {
    if spec_get(catalog, latest_key) is None {
        CatalogError::MissingPointer { pointer: PointerKind::Latest, version: latest_key }
    } else if spec_get(catalog, stable_key) is None {
        CatalogError::MissingPointer { pointer: PointerKind::Stable, version: stable_key }
    } else {
        CatalogError::MissingPointer { pointer: PointerKind::Lts, version: lts_key }
    }
}

/// What a well-assembled catalog looks like: the slug-keyed entries carry
/// exactly the resolved releases, and each pointer equals, by value, the
/// release resolved for its key — so each pointer also equals an entry
/// reachable through `versions`.
pub open spec fn assembled(
    src: Sources,
    catalog: Seq<(u64, Release)>,
    latest_key: u64,
    stable_key: u64,
    lts_key: u64,
) -> bool {
    &&& spec_get(catalog, latest_key) is Some
    &&& src.latest@ == spec_get(catalog, latest_key).unwrap()@
    &&& spec_get(catalog, stable_key) is Some
    &&& src.stable@ == spec_get(catalog, stable_key).unwrap()@
    &&& spec_get(catalog, lts_key) is Some
    &&& src.lts@ == spec_get(catalog, lts_key).unwrap()@
    &&& src.versions@.len() == catalog.len()
    &&& forall|i: int|
        0 <= i < catalog.len() ==> (#[trigger] src.versions@[i]).0@ == slug_spec(
            catalog[i].0 as nat,
        ) && src.versions@[i].1 == catalog[i].1
    &&& exists|i: int| 0 <= i < src.versions@.len() && (#[trigger] src.versions@[i]).1@ == src.latest@
    &&& exists|i: int| 0 <= i < src.versions@.len() && (#[trigger] src.versions@[i]).1@ == src.stable@
    &&& exists|i: int| 0 <= i < src.versions@.len() && (#[trigger] src.versions@[i]).1@ == src.lts@
}

/// When the resolved catalog holds one entry per feature version, the
/// assembled `versions` map holds one entry per slug: no slug repeats.
pub proof fn lemma_assembled_slugs_unique(
    src: Sources,
    catalog: Seq<(u64, Release)>,
    latest_key: u64,
    stable_key: u64,
    lts_key: u64,
)
    requires
        assembled(src, catalog, latest_key, stable_key, lts_key),
        forall|i: int, j: int|
            0 <= i < j < catalog.len() ==> (#[trigger] catalog[i]).0 != (#[trigger] catalog[j]).0,
    ensures
        forall|i: int, j: int|
            0 <= i < j < src.versions@.len() ==> (#[trigger] src.versions@[i]).0@ != (
            #[trigger] src.versions@[j]).0@,
{
    assert forall|i: int, j: int|
        0 <= i < j < src.versions@.len() implies (#[trigger] src.versions@[i]).0@ != (
    #[trigger] src.versions@[j]).0@ by {
        if src.versions@[i].0@ == src.versions@[j].0@ {
            crate::slug::lemma_slug_spec_injective(catalog[i].0 as nat, catalog[j].0 as nat);
        }
    }
}

/// Assembles one vendor's published catalog: keys every resolved release by
/// its fine-grained slug and derives the three pointers by looking their
/// feature versions up in the catalog. A missing pointer target fails the
/// assembly rather than omitting the field.
#[verifier::loop_isolation(false)]
pub fn assemble(
    catalog: Vec<(u64, Release)>,
    latest_key: u64,
    stable_key: u64,
    lts_key: u64,
) -> (r: Result<Sources, CatalogError>)
    ensures
        r is Ok <==> pointers_present(catalog@, latest_key, stable_key, lts_key),
        r matches Ok(src) ==> assembled(src, catalog@, latest_key, stable_key, lts_key),
        r matches Err(e) ==> e == assemble_err(catalog@, latest_key, stable_key, lts_key),
{
    let latest = match find_release(&catalog, latest_key) {
        Some(rel) => rel.clone(),
        None => {
            return Err(
                CatalogError::MissingPointer { pointer: PointerKind::Latest, version: latest_key },
            );
        },
    };
    let stable = match find_release(&catalog, stable_key) {
        Some(rel) => rel.clone(),
        None => {
            return Err(
                CatalogError::MissingPointer { pointer: PointerKind::Stable, version: stable_key },
            );
        },
    };
    let lts = match find_release(&catalog, lts_key) {
        Some(rel) => rel.clone(),
        None => {
            return Err(
                CatalogError::MissingPointer { pointer: PointerKind::Lts, version: lts_key },
            );
        },
    };
    let ghost cat = catalog@;
    let mut catalog = catalog;
    let n = catalog.len();
    let mut versions: Vec<(String, Release)> = Vec::new();
    let mut i: usize = 0;
    while i < n
        invariant
            i <= n,
            n == cat.len(),
            catalog@ == cat.skip(i as int),
            versions@.len() == i,
            forall|j: int|
                0 <= j < i ==> (#[trigger] versions@[j]).0@ == slug_spec(cat[j].0 as nat)
                    && versions@[j].1 == cat[j].1,
        decreases n - i,
    {
        let e = catalog.remove(0);
        proof {
            assert(e == cat.skip(i as int)[0]);
            assert(cat.skip(i as int)[0] == cat[i as int]);
            assert(cat.skip(i as int).skip(1) =~= cat.skip(i + 1));
        }
        let slug = slug_of(e.0);
        versions.push((slug, e.1));
        i = i + 1;
    }
    proof {
        lemma_spec_get_some(cat, latest_key);
        let a = choose|j: int|
            0 <= j < cat.len() && cat[j].0 == latest_key && cat[j].1 == spec_get(
                cat,
                latest_key,
            ).unwrap();
        assert(versions@[a].1 == cat[a].1);
        lemma_spec_get_some(cat, stable_key);
        let b = choose|j: int|
            0 <= j < cat.len() && cat[j].0 == stable_key && cat[j].1 == spec_get(
                cat,
                stable_key,
            ).unwrap();
        assert(versions@[b].1 == cat[b].1);
        lemma_spec_get_some(cat, lts_key);
        let c = choose|j: int|
            0 <= j < cat.len() && cat[j].0 == lts_key && cat[j].1 == spec_get(
                cat,
                lts_key,
            ).unwrap();
        assert(versions@[c].1 == cat[c].1);
    }
    Ok(Sources { versions, latest, stable, lts })
}

/// Assembles the catalogs of both vendors from one shared summary, as the
/// published output does: the primary vendor's `latest` follows the most
/// recent feature version and its `stable` the most recent feature release,
/// while the secondary vendor derives both pointers from the most recent
/// feature release; both vendors take `lts` from the highest advertised
/// long-term-support version.
pub fn assemble_system(
    temurin_catalog: Vec<(u64, Release)>,
    semeru_catalog: Vec<(u64, Release)>,
    summary: &adoptium::AvailableReleases,
) -> (r: Result<System, CatalogError>)
    requires
        summary.available_lts_releases@.len() > 0,
    ensures
        ({
            let lts_key = seq_max(summary.available_lts_releases@);
            let t_ok = pointers_present(
                temurin_catalog@,
                summary.most_recent_feature_version,
                summary.most_recent_feature_release,
                lts_key,
            );
            let s_ok = pointers_present(
                semeru_catalog@,
                summary.most_recent_feature_release,
                summary.most_recent_feature_release,
                lts_key,
            );
            &&& (r is Ok <==> t_ok && s_ok)
            &&& r matches Ok(sys) ==> assembled(
                sys.temurin,
                temurin_catalog@,
                summary.most_recent_feature_version,
                summary.most_recent_feature_release,
                lts_key,
            ) && assembled(
                sys.semeru,
                semeru_catalog@,
                summary.most_recent_feature_release,
                summary.most_recent_feature_release,
                lts_key,
            )
            &&& r matches Err(e) ==> e == (if !t_ok {
                assemble_err(
                    temurin_catalog@,
                    summary.most_recent_feature_version,
                    summary.most_recent_feature_release,
                    lts_key,
                )
            } else {
                assemble_err(
                    semeru_catalog@,
                    summary.most_recent_feature_release,
                    summary.most_recent_feature_release,
                    lts_key,
                )
            })
        }),
{
    let lts_key = match max_of(&summary.available_lts_releases) {
        Some(m) => m,
        None => {
            proof {
                assert(false);
            }
            0
        },
    };
    let temurin = match assemble(
        temurin_catalog,
        summary.most_recent_feature_version,
        summary.most_recent_feature_release,
        lts_key,
    ) {
        Ok(src) => src,
        Err(e) => {
            return Err(e);
        },
    };
    let semeru = match assemble(
        semeru_catalog,
        summary.most_recent_feature_release,
        summary.most_recent_feature_release,
        lts_key,
    ) {
        Ok(src) => src,
        Err(e) => {
            return Err(e);
        },
    };
    Ok(System { temurin, semeru })
}

/// First-match lookup of a slug in the slug-keyed entries.
pub open spec fn spec_get_slug(s: Seq<(String, Release)>, slug: Seq<char>) -> Option<Release>
    decreases s.len(),
{
    if s.len() == 0 {
        None
    } else if s[0].0@ == slug {
        Some(s[0].1)
    } else {
        spec_get_slug(s.skip(1), slug)
    }
}

impl Sources {
    /// Looks a slug up among the published versions, first match.
    #[verifier::loop_isolation(false)]
    pub fn get_version(&self, slug: &String) -> (r: Option<&Release>)
        ensures
            match r {
                Some(rel) => spec_get_slug(self.versions@, slug@) == Some(*rel),
                None => spec_get_slug(self.versions@, slug@) is None,
            },
    {
        let n = self.versions.len();
        let mut i: usize = 0;
        proof {
            assert(self.versions@.skip(0) =~= self.versions@);
        }
        while i < n
            invariant
                i <= n,
                spec_get_slug(self.versions@, slug@) == spec_get_slug(
                    self.versions@.skip(i as int),
                    slug@,
                ),
            decreases n - i,
        {
            proof {
                assert(self.versions@.skip(i as int)[0] == self.versions@[i as int]);
                assert(self.versions@.skip(i as int).skip(1) =~= self.versions@.skip(i + 1));
            }
            if self.versions[i].0.eq(slug) {
                return Some(&self.versions[i].1);
            }
            i = i + 1;
        }
        None
    }
}

} // verus!
