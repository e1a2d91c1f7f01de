//! Planning and collection of a vendor's catalog: one generally-available
//! fetch per advertised feature version, then an early-access fallback for
//! the newest line when it is not yet advertised. The fallback's failure is
//! fatal for the primary vendor and tolerated for the secondary one.

use vstd::prelude::*;

use crate::adoptium::{best_index, best_release, AvailableReleases, Release};
use crate::errors::CatalogError;

verus! {

/// Maturity of a requested release: generally available or early access.
#[derive(PartialEq, Eq, Structural, Clone, Copy, Debug)]
pub enum ReleaseType {
    Ga,
    Ea,
}

/// One fetch the builder asks the transport collaborator to perform.
#[derive(PartialEq, Eq, Structural, Clone, Copy, Debug)]
pub struct FetchRequest {
    pub version: u64,
    pub release_type: ReleaseType,
}

/// The two upstream vendors.
#[derive(PartialEq, Eq, Structural, Clone, Copy, Debug)]
pub enum Vendor {
    Temurin,
    Semeru,
}

impl Vendor {
    /// Whether a failed early-access fallback aborts the run: it does for
    /// the primary vendor and is tolerated for the secondary one.
    pub open spec fn fallback_fatal_spec(self) -> bool {
        self is Temurin
    }

    /// Executable form of the fallback policy.
    pub fn fallback_is_fatal(&self) -> (b: bool)
        ensures
            b == self.fallback_fatal_spec(),
    {
        match self {
            Vendor::Temurin => true,
            Vendor::Semeru => false,
        }
    }
}

/// What the transport collaborator handed back for one fetch: the page of
/// candidates, or its own failure message.
#[derive(Debug)]
pub enum FetchOutcome {
    Page(Vec<Release>),
    Failure(String),
}

/// Whether the early-access fallback is part of the plan: it is exactly when
/// the most recent feature version is not among the advertised releases.
pub open spec fn ea_planned(s: AvailableReleases) -> bool {
    !s.available_releases@.contains(s.most_recent_feature_version)
}

/// How many generally-available fetches the plan holds.
pub open spec fn ga_count(s: AvailableReleases) -> int {
    s.available_releases@.len() as int
}

/// How many fetches the plan holds in all.
pub open spec fn plan_len(s: AvailableReleases) -> int {
    ga_count(s) + if ea_planned(s) {
        1int
    } else {
        0int
    }
}

/// The feature version the fetch at position `i` of the plan asks for.
pub open spec fn plan_version(s: AvailableReleases, i: int) -> u64 {
    if i < ga_count(s) {
        s.available_releases@[i]
    } else {
        s.most_recent_feature_version
    }
}

/// Whether a fetch outcome yields a candidate: a non-empty page.
pub open spec fn outcome_ok(o: FetchOutcome) -> bool {
    match o {
        FetchOutcome::Page(p) => p@.len() > 0,
        FetchOutcome::Failure(_) => false,
    }
}

/// The best candidate of a successful fetch outcome.
pub open spec fn outcome_best(o: FetchOutcome) -> Release
    recommends
        outcome_ok(o),
{
    match o {
        FetchOutcome::Page(p) => p@[best_index(p@)],
        FetchOutcome::Failure(_) => arbitrary(),
    }
}

/// The error a failed fetch outcome for `version` turns into: the
/// transport's own failure, or the absence of any candidate.
pub open spec fn outcome_err(o: FetchOutcome, version: u64) -> CatalogError {
    match o {
        FetchOutcome::Page(_) => CatalogError::NoCandidates { version },
        FetchOutcome::Failure(m) => CatalogError::Transport { detail: m },
    }
}

/// The position of the first failed outcome (the length when every outcome
/// succeeded).
pub open spec fn first_bad(os: Seq<FetchOutcome>) -> int
    decreases os.len(),
{
    if os.len() == 0 {
        0
    } else if !outcome_ok(os[0]) {
        0
    } else {
        1 + first_bad(os.skip(1))
    }
}

proof fn lemma_first_bad(os: Seq<FetchOutcome>, i: int)
    requires
        0 <= i <= os.len(),
        forall|j: int| 0 <= j < i ==> outcome_ok(os[j]),
        i < os.len() ==> !outcome_ok(os[i]),
    ensures
        first_bad(os) == i,
    decreases i,
{
    if i > 0 {
        assert(outcome_ok(os[0]));
        assert forall|j: int| 0 <= j < i - 1 implies outcome_ok(os.skip(1)[j]) by {
            assert(os.skip(1)[j] == os[j + 1]);
        }
        if i - 1 < os.skip(1).len() {
            assert(os.skip(1)[i - 1] == os[i]);
        }
        lemma_first_bad(os.skip(1), i - 1);
    }
}

/// Whether a vector of numbers contains `x`.
pub fn contains_u64(v: &Vec<u64>, x: u64) -> (b: bool)
    ensures
        b == v@.contains(x),
{
    let n = v.len();
    let mut i: usize = 0;
    while i < n
        invariant
            i <= n,
            n == v@.len(),
            forall|j: int| 0 <= j < i ==> v@[j] != x,
        decreases n - i,
    {
        if v[i] == x {
            assert(v@.contains(x)) by {
                assert(v@[i as int] == x);
            }
            return true;
        }
        i = i + 1;
    }
    false
}

/// Plans a vendor's fetches from its summary: one generally-available fetch
/// per advertised feature version, in the advertised order, then one
/// early-access fetch for the most recent feature version when it is not
/// among them.
pub fn plan_requests(summary: &AvailableReleases) -> (plan: Vec<FetchRequest>)
    ensures
        plan@.len() == plan_len(*summary),
        forall|i: int|
            0 <= i < ga_count(*summary) ==> plan@[i] == (FetchRequest {
                version: summary.available_releases@[i],
                release_type: ReleaseType::Ga,
            }),
        ea_planned(*summary) ==> plan@[ga_count(*summary)] == (FetchRequest {
            version: summary.most_recent_feature_version,
            release_type: ReleaseType::Ea,
        }),
{
    let n = summary.available_releases.len();
    let mut plan: Vec<FetchRequest> = Vec::new();
    let mut i: usize = 0;
    while i < n
        invariant
            i <= n,
            n == summary.available_releases@.len(),
            plan@.len() == i,
            forall|j: int|
                0 <= j < i ==> plan@[j] == (FetchRequest {
                    version: summary.available_releases@[j],
                    release_type: ReleaseType::Ga,
                }),
        decreases n - i,
    {
        plan.push(
            FetchRequest { version: summary.available_releases[i], release_type: ReleaseType::Ga },
        );
        i = i + 1;
    }
    if !contains_u64(&summary.available_releases, summary.most_recent_feature_version) {
        plan.push(
            FetchRequest {
                version: summary.most_recent_feature_version,
                release_type: ReleaseType::Ea,
            },
        );
    }
    plan
}

/// Collects a vendor's catalog from the outcomes of the planned fetches, in
/// plan order: the best candidate of every generally-available page keyed by
/// its feature version, then the early-access fallback's best candidate when
/// that fetch was planned and produced one. A failed mandatory fetch aborts
/// with the error of the first failure; a failed fallback aborts only when
/// the vendor's policy makes it fatal.
#[verifier::loop_isolation(false)]
pub fn build_catalog(
    summary: &AvailableReleases,
    outcomes: Vec<FetchOutcome>,
    fallback_is_fatal: bool,
) -> (r: Result<Vec<(u64, Release)>, CatalogError>)
    requires
        summary.wf(),
        outcomes@.len() == plan_len(*summary),
    ensures
        r is Ok <==> ((forall|i: int| 0 <= i < ga_count(*summary) ==> outcome_ok(outcomes@[i]))
            && (ea_planned(*summary) && fallback_is_fatal ==> outcome_ok(
            outcomes@[ga_count(*summary)],
        ))),
        r matches Ok(cat) ==> {
            let n = ga_count(*summary);
            let with_ea = ea_planned(*summary) && outcome_ok(outcomes@[n]);
            &&& cat@.len() == n + if with_ea {
                1int
            } else {
                0int
            }
            &&& forall|i: int|
                0 <= i < n ==> cat@[i] == (
                summary.available_releases@[i],
                outcome_best(outcomes@[i]),
            )
            &&& (with_ea ==> cat@[n] == (
                summary.most_recent_feature_version,
                outcome_best(outcomes@[n]),
            ))
        },
        r matches Err(e) ==> {
            let k = first_bad(outcomes@);
            &&& 0 <= k < outcomes@.len()
            &&& !outcome_ok(outcomes@[k])
            &&& e == outcome_err(outcomes@[k], plan_version(*summary, k))
        },
{
    let ghost full = outcomes@;
    let mut outcomes = outcomes;
    let n = summary.available_releases.len();
    let mut cat: Vec<(u64, Release)> = Vec::new();
    let mut i: usize = 0;
    while i < n
        invariant
            i <= n,
            n == ga_count(*summary),
            full.len() == plan_len(*summary),
            outcomes@ == full.skip(i as int),
            cat@.len() == i,
            forall|j: int| 0 <= j < i ==> outcome_ok(full[j]),
            forall|j: int|
                0 <= j < i ==> cat@[j] == (summary.available_releases@[j], outcome_best(full[j])),
        decreases n - i,
    {
        let version = summary.available_releases[i];
        let o = outcomes.remove(0);
        proof {
            assert(o == full.skip(i as int)[0]);
            assert(full.skip(i as int)[0] == full[i as int]);
            assert(full.skip(i as int).skip(1) =~= full.skip(i + 1));
        }
        match o {
            FetchOutcome::Failure(m) => {
                proof {
                    assert(full[i as int] == FetchOutcome::Failure(m));
                    assert(!outcome_ok(full[i as int]));
                    lemma_first_bad(full, i as int);
                }
                return Err(CatalogError::Transport { detail: m });
            },
            FetchOutcome::Page(p) => {
                proof {
                    assert(full[i as int] == FetchOutcome::Page(p));
                }
                match best_release(version, p) {
                    Ok(rel) => {
                        proof {
                            assert(outcome_ok(full[i as int]));
                            assert(outcome_best(full[i as int]) == rel);
                        }
                        cat.push((version, rel));
                    },
                    Err(e) => {
                        proof {
                            assert(!outcome_ok(full[i as int]));
                            lemma_first_bad(full, i as int);
                        }
                        return Err(e);
                    },
                }
            },
        }
        i = i + 1;
    }
    if outcomes.len() > 0 {
        let version = summary.most_recent_feature_version;
        let o = outcomes.remove(0);
        proof {
            assert(o == full.skip(n as int)[0]);
            assert(full.skip(n as int)[0] == full[n as int]);
        }
        match o {
            FetchOutcome::Failure(m) => {
                proof {
                    assert(full[n as int] == FetchOutcome::Failure(m));
                    assert(!outcome_ok(full[n as int]));
                }
                if fallback_is_fatal {
                    proof {
                        lemma_first_bad(full, n as int);
                    }
                    return Err(CatalogError::Transport { detail: m });
                }
            },
            FetchOutcome::Page(p) => {
                proof {
                    assert(full[n as int] == FetchOutcome::Page(p));
                }
                match best_release(version, p) {
                    Ok(rel) => {
                        proof {
                            assert(outcome_ok(full[n as int]));
                            assert(outcome_best(full[n as int]) == rel);
                        }
                        cat.push((version, rel));
                    },
                    Err(e) => {
                        proof {
                            assert(!outcome_ok(full[n as int]));
                        }
                        if fallback_is_fatal {
                            proof {
                                lemma_first_bad(full, n as int);
                            }
                            return Err(e);
                        }
                    },
                }
            },
        }
    }
    Ok(cat)
}

} // verus!
