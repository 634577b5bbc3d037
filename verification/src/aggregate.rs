//! Orchestration after the requests: assembling one record from the four
//! extracted pages and the portrait fingerprint, and restoring input order
//! over a batch whose fetches completed in any order.

use vstd::prelude::*;
use crate::extract::{extract_achievements, extract_minions, extract_mounts, extract_profile,
    spec_achievements, spec_minions, spec_mounts, spec_profile};
use crate::hashing::{compute_content_hash, hex_of, sha256_of};
use crate::model::{Achievements, AvatarV, FF14Avatar, FetchError, Minions, Mounts, Profile};

verus! {

/// Relies on chrono's `Utc::now`: the current instant as epoch seconds,
/// UTC. Of the clock nothing more can be promised.
#[verifier::external_body]
pub fn now_epoch_seconds() -> i64 {
    chrono::Utc::now().timestamp()
}

/// Assemble the final record. Every field is pinned to its argument: a
/// record is only ever returned fully populated.
pub fn assemble_avatar(
    id: String,
    profile: Profile,
    image_hash: String,
    achievements: Achievements,
    minions: Minions,
    mounts: Mounts,
    fetched_at: i64,
) -> (a: FF14Avatar)
    ensures
        a.id == id,
        a.name == profile.name,
        a.image_url == profile.image_url,
        a.jobs == profile.jobs,
        a.achievements == achievements,
        a.minions == minions,
        a.mounts == mounts,
        a.fetched_at == fetched_at,
        a.image_hash == image_hash,
{
    FF14Avatar {
        id,
        name: profile.name,
        image_url: profile.image_url,
        jobs: profile.jobs,
        achievements,
        minions,
        mounts,
        fetched_at,
        image_hash,
    }
}

/// What one whole call yields from its raw inputs: the profile extraction,
/// then the portrait fingerprint, then the three further pages, the first
/// failure in that order aborting everything.
pub open spec fn spec_build(
    id: Seq<char>,
    profile_markup: Seq<char>,
    portrait_bytes: Seq<u8>,
    achievements_markup: Seq<char>,
    minions_markup: Seq<char>,
    mounts_markup: Seq<char>,
    fetched_at: int,
) -> Result<AvatarV, FetchError> {
    match spec_profile(profile_markup) {
        Err(e) => Err(e),
        Ok(p) => match spec_achievements(achievements_markup) {
            Err(e) => Err(e),
            Ok(ac) => match spec_minions(minions_markup) {
                Err(e) => Err(e),
                Ok(mi) => match spec_mounts(mounts_markup) {
                    Err(e) => Err(e),
                    Ok(mo) => Ok(
                        AvatarV {
                            id,
                            name: p.name,
                            image_url: p.image_url,
                            jobs: p.jobs,
                            achievements: ac,
                            minions: mi,
                            mounts: mo,
                            fetched_at,
                            image_hash: hex_of(sha256_of(portrait_bytes)),
                        },
                    ),
                },
            },
        },
    }
}

/// The compute core of one call, after the five requests: extract all four
/// pages, fingerprint the portrait bytes, and assemble the record. Any
/// failure aborts the call; no partial record is ever returned.
pub fn build_avatar(
    id: &str,
    profile_markup: &str,
    portrait_bytes: &Vec<u8>,
    achievements_markup: &str,
    minions_markup: &str,
    mounts_markup: &str,
    fetched_at: i64,
) -> (r: Result<FF14Avatar, FetchError>)
    ensures
        match r {
            Ok(a) => spec_build(
                id@,
                profile_markup@,
                portrait_bytes@,
                achievements_markup@,
                minions_markup@,
                mounts_markup@,
                fetched_at as int,
            ) == Ok::<_, FetchError>(a@),
            Err(e) => spec_build(
                id@,
                profile_markup@,
                portrait_bytes@,
                achievements_markup@,
                minions_markup@,
                mounts_markup@,
                fetched_at as int,
            ) == Err::<AvatarV, FetchError>(e),
        },
{
    let profile = match extract_profile(profile_markup) {
        Err(e) => {
            return Err(e);
        },
        Ok(p) => p,
    };
    let image_hash = compute_content_hash(portrait_bytes);
    let achievements = match extract_achievements(achievements_markup) {
        Err(e) => {
            return Err(e);
        },
        Ok(a) => a,
    };
    let minions = match extract_minions(minions_markup) {
        Err(e) => {
            return Err(e);
        },
        Ok(m) => m,
    };
    let mounts = match extract_mounts(mounts_markup) {
        Err(e) => {
            return Err(e);
        },
        Ok(m) => m,
    };
    let id_owned = String::from_str(id);
    Ok(assemble_avatar(id_owned, profile, image_hash, achievements, minions, mounts, fetched_at))
}

/// `p` is one of the pairs of `orig`.
pub open spec fn from_orig<T>(orig: Seq<(usize, T)>, p: (usize, T)) -> bool {
    exists|j: int| 0 <= j < orig.len() && orig[j] == p
}

/// Some pair answers position `t`.
pub open spec fn answers<T>(pairs: Seq<(usize, T)>, t: int) -> bool {
    exists|j: int| 0 <= j < pairs.len() && (#[trigger] pairs[j]).0 == t
}

/// Some pair answers position `t` with the outcome `v`.
pub open spec fn answer_of<T>(pairs: Seq<(usize, T)>, t: int, v: T) -> bool {
    exists|j: int| 0 <= j < pairs.len() && (#[trigger] pairs[j]).0 == t && pairs[j].1 == v
}

/// Restore input order over batch outcomes that arrived in completion
/// order. Each pair carries the input position it answers; provided every
/// position below the batch size is answered by some pair, the result holds
/// at each position an outcome paired with that position — so the batch
/// result corresponds position by position to the inputs, regardless of
/// which fetch finished first.
pub fn order_by_index<T>(pairs: Vec<(usize, T)>) -> (r: Vec<T>)
    requires
        forall|t: int| 0 <= t < pairs@.len() ==> #[trigger] answers(pairs@, t),
    ensures
        r@.len() == pairs@.len(),
        forall|t: int| 0 <= t < r@.len() ==> #[trigger] answer_of(pairs@, t, r@[t]),
{
    let ghost orig = pairs@;
    let n = pairs.len();
    let mut rem = pairs;
    let mut out: Vec<T> = Vec::new();
    let mut t: usize = 0;
    proof {
        assert forall|k: int| 0 <= k < rem@.len() implies #[trigger] from_orig(orig, rem@[k]) by {
            assert(orig[k] == rem@[k]);
        }
    }
    while t < n
        invariant
            0 <= t <= n,
            n == orig.len(),
            out@.len() == t,
            rem@.len() == n - t,
            forall|k: int| 0 <= k < rem@.len() ==> #[trigger] from_orig(orig, rem@[k]),
            forall|u: int| t <= u < n ==> #[trigger] answers(rem@, u),
            forall|u: int| 0 <= u < t ==> #[trigger] answer_of(orig, u, out@[u]),
        decreases n - t,
    {
        let m = rem.len();
        let mut k: usize = 0;
        while k < m && rem[k].0 != t
            invariant
                0 <= k <= m,
                m == rem@.len(),
                forall|x: int| 0 <= x < k ==> (#[trigger] rem@[x]).0 != t,
            decreases m - k,
        {
            k = k + 1;
        }
        proof {
            if k == m {
                assert(answers(rem@, t as int));
                let kk = choose|kk: int|
                    0 <= kk < rem@.len() && (#[trigger] rem@[kk]).0 == t as int;
                assert(false);
            }
        }
        let ghost before = rem@;
        let pair = rem.remove(k);
        out.push(pair.1);
        proof {
            assert(rem@ =~= before.subrange(0, k as int) + before.subrange(
                k + 1,
                before.len() as int,
            ));
            assert forall|kx: int| 0 <= kx < rem@.len() implies #[trigger] from_orig(
                orig,
                rem@[kx],
            ) by {
                if kx < k {
                    assert(rem@[kx] == before[kx]);
                } else {
                    assert(rem@[kx] == before[kx + 1]);
                }
            }
            assert forall|u: int| t + 1 <= u < n implies #[trigger] answers(rem@, u) by {
                assert(answers(before, u));
                let kk = choose|kk: int|
                    0 <= kk < before.len() && (#[trigger] before[kk]).0 == u;
                if kk < k {
                    assert(rem@[kk] == before[kk]);
                } else {
                    assert(kk != k);
                    assert(rem@[kk - 1] == before[kk]);
                }
            }
            assert(pair == before[k as int]);
            assert(from_orig(orig, before[k as int]));
            let j0 = choose|j: int| 0 <= j < orig.len() && orig[j] == before[k as int];
            assert((orig[j0]).0 == t as int && out@[t as int] == orig[j0].1);
            assert(answer_of(orig, t as int, out@[t as int]));
        }
        t = t + 1;
    }
    out
}

} // verus!
