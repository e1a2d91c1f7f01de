//! The coarse-slug merge path: candidates for the same `major.minor` line
//! collapse to one entry keyed `1.<major>.<minor>`, a later candidate
//! replacing the kept one only when it is strictly greater under the
//! version order.

use vstd::prelude::*;

use crate::adoptium::{compare_releases, rel_cmp, Release};
use crate::order::VersionOrdering;
use crate::slug::{coarse_slug_of, coarse_slug_spec};

verus! {

/// The candidates of one `major.minor` line, in their original order.
pub open spec fn matching(s: Seq<Release>, major: u64, minor: u64) -> Seq<Release>
    decreases s.len(),
{
    if s.len() == 0 {
        Seq::empty()
    } else {
        let rest = matching(s.drop_last(), major, minor);
        if s.last().version_data.major == major && s.last().version_data.minor == minor {
            rest.push(s.last())
        } else {
            rest
        }
    }
}

/// The candidate a forward scan keeps for one line: a later candidate
/// replaces the kept one only when strictly greater.
pub open spec fn scan_winner(s: Seq<Release>) -> Release
    recommends
        s.len() > 0,
    decreases s.len(),
{
    if s.len() <= 1 {
        s[0]
    } else {
        let w = scan_winner(s.drop_last());
        if rel_cmp(s.last(), w) == VersionOrdering::Greater {
            s.last()
        } else {
            w
        }
    }
}

proof fn lemma_matching_empty(s: Seq<Release>, major: u64, minor: u64)
    requires
        forall|i: int|
            0 <= i < s.len() ==> !((#[trigger] s[i]).version_data.major == major
                && s[i].version_data.minor == minor),
    ensures
        matching(s, major, minor).len() == 0,
    decreases s.len(),
{
    if s.len() > 0 {
        assert(s.last() == s[s.len() - 1]);
        assert(forall|i: int| 0 <= i < s.len() - 1 ==> s.drop_last()[i] == s[i]);
        lemma_matching_empty(s.drop_last(), major, minor);
    }
}

/// Collapses candidates to one entry per `major.minor` line, keyed by the
/// coarse slug: each kept candidate is the one the forward scan keeps for
/// its line, every line that occurs is represented, and no line is
/// represented twice.
#[verifier::loop_isolation(false)]
pub fn merge_coarse(candidates: Vec<Release>) -> (out: Vec<(String, Release)>)
    ensures
        forall|j: int|
            0 <= j < out@.len() ==> {
                let maj = (#[trigger] out@[j]).1.version_data.major;
                let min = out@[j].1.version_data.minor;
                &&& out@[j].0@ == coarse_slug_spec(maj as nat, min as nat)
                &&& matching(candidates@, maj, min).len() > 0
                &&& out@[j].1 == scan_winner(matching(candidates@, maj, min))
            },
        forall|j: int, k: int|
            0 <= j < k < out@.len() ==> !((#[trigger] out@[j]).1.version_data.major == (
            #[trigger] out@[k]).1.version_data.major && out@[j].1.version_data.minor
                == out@[k].1.version_data.minor),
        forall|i: int|
            0 <= i < candidates@.len() ==> exists|j: int|
                0 <= j < out@.len() && (#[trigger] out@[j]).1.version_data.major == (
                #[trigger] candidates@[i]).version_data.major && out@[j].1.version_data.minor
                    == candidates@[i].version_data.minor,
{
    let ghost cs = candidates@;
    let mut candidates = candidates;
    let n = candidates.len();
    let mut out: Vec<(String, Release)> = Vec::new();
    let mut i: usize = 0;
    proof {
        assert(cs.skip(0) =~= cs);
    }
    while i < n
        invariant
            i <= n,
            n == cs.len(),
            candidates@ == cs.skip(i as int),
            forall|j: int|
                0 <= j < out@.len() ==> {
                    let maj = (#[trigger] out@[j]).1.version_data.major;
                    let min = out@[j].1.version_data.minor;
                    &&& out@[j].0@ == coarse_slug_spec(maj as nat, min as nat)
                    &&& matching(cs.take(i as int), maj, min).len() > 0
                    &&& out@[j].1 == scan_winner(matching(cs.take(i as int), maj, min))
                },
            forall|j: int, k: int|
                0 <= j < k < out@.len() ==> !((#[trigger] out@[j]).1.version_data.major == (
                #[trigger] out@[k]).1.version_data.major && out@[j].1.version_data.minor
                    == out@[k].1.version_data.minor),
            forall|t: int|
                0 <= t < i ==> exists|j: int|
                    0 <= j < out@.len() && (#[trigger] out@[j]).1.version_data.major == (
                    #[trigger] cs[t]).version_data.major && out@[j].1.version_data.minor
                        == cs[t].version_data.minor,
        decreases n - i,
    {
        let c = candidates.remove(0);
        proof {
            assert(c == cs.skip(i as int)[0]);
            assert(cs.skip(i as int)[0] == cs[i as int]);
            assert(cs.skip(i as int).skip(1) =~= cs.skip(i + 1));
            assert(cs.take(i + 1).drop_last() =~= cs.take(i as int));
            assert(cs.take(i + 1).last() == cs[i as int]);
        }
        let cm = c.version_data.major;
        let cn = c.version_data.minor;
        let ghost old_out = out@;
        let m = out.len();
        let mut j: usize = 0;
        while j < m && !(out[j].1.version_data.major == cm && out[j].1.version_data.minor == cn)
            invariant
                j <= m,
                m == out@.len(),
                out@ == old_out,
                forall|t: int|
                    0 <= t < j ==> !((#[trigger] out@[t]).1.version_data.major == cm
                        && out@[t].1.version_data.minor == cn),
            decreases m - j,
        {
            j = j + 1;
        }
        if j < m {
            let ghost g = matching(cs.take(i as int), cm, cn);
            proof {
                assert(matching(cs.take(i + 1), cm, cn) == g.push(c));
                assert(g.push(c).drop_last() =~= g);
                assert(g.push(c).last() == c);
                assert(g.len() > 0);
                assert(scan_winner(g.push(c)) == (if rel_cmp(c, scan_winner(g))
                    == VersionOrdering::Greater {
                    c
                } else {
                    scan_winner(g)
                }));
            }
            let cmp = compare_releases(&c, &out[j].1);
            if matches!(cmp, VersionOrdering::Greater) {
                let old_e = out.remove(j);
                out.insert(j, (old_e.0, c));
                proof {
                    assert(out@ =~= old_out.update(j as int, (old_e.0, c)));
                }
            }
            proof {
                assert forall|q: int| 0 <= q < out@.len() implies {
                    let maj = (#[trigger] out@[q]).1.version_data.major;
                    let min = out@[q].1.version_data.minor;
                    &&& out@[q].0@ == coarse_slug_spec(maj as nat, min as nat)
                    &&& matching(cs.take(i + 1), maj, min).len() > 0
                    &&& out@[q].1 == scan_winner(matching(cs.take(i + 1), maj, min))
                } by {
                    let maj = out@[q].1.version_data.major;
                    let min = out@[q].1.version_data.minor;
                    if q != j {
                        assert(out@[q] == old_out[q]);
                        assert(!(maj == cm && min == cn));
                        assert(matching(cs.take(i + 1), maj, min) == matching(
                            cs.take(i as int),
                            maj,
                            min,
                        ));
                    } else {
                        assert(maj == cm && min == cn);
                    }
                }
                assert forall|t: int| 0 <= t <= i as int implies exists|q: int|
                    0 <= q < out@.len() && (#[trigger] out@[q]).1.version_data.major == (
                    #[trigger] cs[t]).version_data.major && out@[q].1.version_data.minor
                        == cs[t].version_data.minor by {
                    if t < i {
                        let w = choose|q: int|
                            0 <= q < old_out.len() && (#[trigger] old_out[q]).1.version_data.major
                                == cs[t].version_data.major && old_out[q].1.version_data.minor
                                == cs[t].version_data.minor;
                        assert(out@[w].1.version_data.major == cs[t].version_data.major
                            && out@[w].1.version_data.minor == cs[t].version_data.minor);
                    } else {
                        assert(out@[j as int].1.version_data.major == cs[t].version_data.major
                            && out@[j as int].1.version_data.minor == cs[t].version_data.minor);
                    }
                }
            }
        } else {
            proof {
                assert forall|t: int| 0 <= t < i implies !((#[trigger] cs[t]).version_data.major
                    == cm && cs[t].version_data.minor == cn) by {
                    if cs[t].version_data.major == cm && cs[t].version_data.minor == cn {
                        let w = choose|q: int|
                            0 <= q < out@.len() && (#[trigger] out@[q]).1.version_data.major == cs[t].version_data.major
                                && out@[q].1.version_data.minor == cs[t].version_data.minor;
                        assert(false);
                    }
                }
                assert(forall|t: int|
                    0 <= t < cs.take(i as int).len() ==> cs.take(i as int)[t] == cs[t]);
                lemma_matching_empty(cs.take(i as int), cm, cn);
                assert(matching(cs.take(i + 1), cm, cn) =~= seq![c]);
                assert(scan_winner(seq![c]) == c);
                assert forall|maj: u64, min: u64| !(maj == cm && min == cn) implies matching(
                    cs.take(i + 1),
                    maj,
                    min,
                ) == matching(cs.take(i as int), maj, min) by {}
            }
            let slug = coarse_slug_of(cm, cn);
            out.push((slug, c));
            proof {
                assert forall|t: int| 0 <= t <= i as int implies exists|q: int|
                    0 <= q < out@.len() && (#[trigger] out@[q]).1.version_data.major == (
                    #[trigger] cs[t]).version_data.major && out@[q].1.version_data.minor
                        == cs[t].version_data.minor by {
                    if t < i {
                        let w = choose|q: int|
                            0 <= q < old_out.len() && (#[trigger] old_out[q]).1.version_data.major
                                == cs[t].version_data.major && old_out[q].1.version_data.minor
                                == cs[t].version_data.minor;
                        assert(out@[w].1.version_data.major == cs[t].version_data.major
                            && out@[w].1.version_data.minor == cs[t].version_data.minor);
                    } else {
                        let w = out@.len() - 1;
                        assert(out@[w].1.version_data.major == cs[t].version_data.major
                            && out@[w].1.version_data.minor == cs[t].version_data.minor);
                    }
                }
            }
        }
        i = i + 1;
    }
    proof {
        assert(cs.take(n as int) =~= cs);
    }
    out
}

} // verus!
