//! The plan cache: a bounded map from 64-bit fingerprints to cached plans
//! with fresh/stale ages.  Entries are fresh for `fresh_ttl_ms`, then stale
//! for `stale_extension_ms` more, then gone; at capacity the entry inserted
//! earliest is evicted (insertion order, not recency of use).

use vstd::prelude::*;

verus! {

use crate::fingerprint::{fnv_mix_chars, fnv_mix_u64, mix_chars, mix_u64, FNV_OFFSET};
use crate::types::{ApiKind, CacheStatus, PrivacyMode, RoutePlan};

/// A cache fingerprint.
#[derive(Clone, Copy, Debug, PartialEq, Eq, Structural)]
pub struct CacheKey(pub u64);

pub open spec fn privacy_code(p: PrivacyMode) -> u64 {
    match p {
        PrivacyMode::FeaturesOnly => 0u64,
        PrivacyMode::Summary => 1u64,
        PrivacyMode::Full => 2u64,
    }
}

pub open spec fn api_code(a: ApiKind) -> u64 {
    match a {
        ApiKind::Responses => 0u64,
        ApiKind::Chat => 1u64,
    }
}

/// The fingerprint over every input two requests must share to share a plan,
/// mixed in a fixed order.  The request id is deliberately absent.
pub open spec fn cache_key_spec(
    policy_rev: Seq<char>,
    alias_hash: u64,
    caps_mask: u64,
    json_mode: bool,
    in_bucket: u16,
    out_bucket: u16,
    region_mask: u32,
    boost: bool,
    plan_token_model: u32,
    overlay_hash: u64,
    privacy: PrivacyMode,
    api: ApiKind,
    freeze_hash: u64,
    canonical_hash: u64,
) -> u64 {
    let h = fnv_mix_chars(FNV_OFFSET, policy_rev);
    let h = fnv_mix_u64(h, alias_hash);
    let h = fnv_mix_u64(h, caps_mask);
    let h = fnv_mix_u64(
        h,
        if json_mode {
            1u64
        } else {
            0u64
        },
    );
    let h = fnv_mix_u64(h, in_bucket as u64);
    let h = fnv_mix_u64(h, out_bucket as u64);
    let h = fnv_mix_u64(h, region_mask as u64);
    let h = fnv_mix_u64(
        h,
        if boost {
            1u64
        } else {
            0u64
        },
    );
    let h = fnv_mix_u64(h, plan_token_model as u64);
    let h = fnv_mix_u64(h, overlay_hash);
    let h = fnv_mix_u64(h, privacy_code(privacy));
    let h = fnv_mix_u64(h, api_code(api));
    let h = fnv_mix_u64(h, freeze_hash);
    fnv_mix_u64(h, canonical_hash)
}

impl CacheKey {
    /// Derive the fingerprint for one request's routing inputs.
    pub fn derive(
        policy_rev: &str,
        alias_hash: u64,
        caps_mask: u64,
        json_mode: bool,
        in_bucket: u16,
        out_bucket: u16,
        region_mask: u32,
        boost: bool,
        plan_token_model: u32,
        overlay_hash: u64,
        privacy: PrivacyMode,
        api: ApiKind,
        freeze_hash: u64,
        canonical_hash: u64,
    ) -> (r: CacheKey)
        ensures
            r.0 == cache_key_spec(
                policy_rev@,
                alias_hash,
                caps_mask,
                json_mode,
                in_bucket,
                out_bucket,
                region_mask,
                boost,
                plan_token_model,
                overlay_hash,
                privacy,
                api,
                freeze_hash,
                canonical_hash,
            ),
    {
        let mut h = mix_chars(FNV_OFFSET, policy_rev);
        h = mix_u64(h, alias_hash);
        h = mix_u64(h, caps_mask);
        h = mix_u64(
            h,
            if json_mode {
                1
            } else {
                0
            },
        );
        h = mix_u64(h, in_bucket as u64);
        h = mix_u64(h, out_bucket as u64);
        h = mix_u64(h, region_mask as u64);
        h = mix_u64(
            h,
            if boost {
                1
            } else {
                0
            },
        );
        h = mix_u64(h, plan_token_model as u64);
        h = mix_u64(h, overlay_hash);
        let privacy_word: u64 = match privacy {
            PrivacyMode::FeaturesOnly => 0,
            PrivacyMode::Summary => 1,
            PrivacyMode::Full => 2,
        };
        h = mix_u64(h, privacy_word);
        let api_word: u64 = match api {
            ApiKind::Responses => 0,
            ApiKind::Chat => 1,
        };
        h = mix_u64(h, api_word);
        h = mix_u64(h, freeze_hash);
        h = mix_u64(h, canonical_hash);
        CacheKey(h)
    }
}

/// One cached plan with its insertion instant, optional absolute expiry, and
/// the reason the route was chosen.
#[derive(Clone, Debug)]
pub struct CachedPlan {
    pub plan: RoutePlan,
    pub inserted_at_ms: u64,
    pub valid_until_ms: Option<u64>,
    pub route_reason: Option<String>,
}

#[derive(Clone, Debug)]
pub struct PlanCache {
    pub entries: Vec<(u64, CachedPlan)>,
    pub capacity: usize,
    pub fresh_ttl_ms: u64,
    pub stale_extension_ms: u64,
}

impl View for PlanCache {
    type V = Seq<(u64, CachedPlan)>;

    open spec fn view(&self) -> Seq<(u64, CachedPlan)> {
        self.entries@
    }
}

/// The entry stored under a fingerprint, first match from the front.
pub open spec fn cache_find(s: Seq<(u64, CachedPlan)>, k: u64) -> Option<CachedPlan>
    decreases s.len(),
{
    if s.len() == 0 {
        None
    } else if s.first().0 == k {
        Some(s.first().1)
    } else {
        cache_find(s.drop_first(), k)
    }
}

/// Fingerprints are bound at most once.
pub open spec fn wf_cache(s: Seq<(u64, CachedPlan)>) -> bool {
    forall|i: int, j: int| 0 <= i < j < s.len() ==> #[trigger] s[i].0 != #[trigger] s[j].0
}

/// How old an entry is at `now_ms`; a clock that has not advanced reads as
/// age zero.
pub open spec fn age_of(e: CachedPlan, now_ms: u64) -> int {
    if now_ms >= e.inserted_at_ms {
        now_ms - e.inserted_at_ms
    } else {
        0
    }
}

/// The status an entry reports at `now_ms`: `Hit` within the fresh TTL and
/// before any absolute expiry; `Stale` through the stale extension; `Miss`
/// once it has outlived both (it is then as good as evicted).
pub open spec fn status_of(e: CachedPlan, fresh_ttl_ms: u64, stale_extension_ms: u64, now_ms: u64) -> CacheStatus {
    let age = age_of(e, now_ms);
    if age > fresh_ttl_ms + stale_extension_ms {
        CacheStatus::Miss
    } else if age > fresh_ttl_ms {
        CacheStatus::Stale
    } else if e.valid_until_ms matches Some(v) && v <= now_ms {
        CacheStatus::Stale
    } else {
        CacheStatus::Hit
    }
}

/// Rank of a status in its lifecycle: `Hit` before `Stale` before `Miss`.
pub open spec fn status_rank(s: CacheStatus) -> int {
    match s {
        CacheStatus::Hit => 0,
        CacheStatus::Stale => 1,
        CacheStatus::Miss => 2,
    }
}

/// Within one revision, a fingerprint's status only moves forward: an entry
/// read as `Hit` can later read `Stale` or `Miss`, never the reverse.
pub proof fn lemma_status_monotonic(
    e: CachedPlan,
    fresh_ttl_ms: u64,
    stale_extension_ms: u64,
    t1: u64,
    t2: u64,
)
    requires
        t1 <= t2,
    ensures
        status_rank(status_of(e, fresh_ttl_ms, stale_extension_ms, t1)) <= status_rank(
            status_of(e, fresh_ttl_ms, stale_extension_ms, t2),
        ),
{
}

/// The position of a fingerprint's first binding.
fn find_index(v: &Vec<(u64, CachedPlan)>, k: u64) -> (r: Option<usize>)
    ensures
        match r {
            Some(i) => i < v@.len() && v@[i as int].0 == k && forall|j: int|
                0 <= j < i ==> v@[j].0 != k,
            None => forall|j: int| 0 <= j < v@.len() ==> v@[j].0 != k,
        },
{
    let mut i: usize = 0;
    while i < v.len()
        invariant
            i <= v@.len(),
            forall|j: int| 0 <= j < i ==> v@[j].0 != k,
        decreases v@.len() - i,
    {
        if v[i].0 == k {
            return Some(i);
        }
        i = i + 1;
    }
    None
}

impl PlanCache {
    /// A cache bounded by `capacity` whose entries live for
    /// `fresh_ttl_ms + stale_extension_ms`.
    pub fn new(capacity: usize, fresh_ttl_ms: u64, stale_extension_ms: u64) -> (r: Self)
        requires
            capacity >= 1,
        ensures
            r@.len() == 0,
            wf_cache(r@),
            r.capacity == capacity,
            r.fresh_ttl_ms == fresh_ttl_ms,
            r.stale_extension_ms == stale_extension_ms,
    {
        PlanCache { entries: Vec::new(), capacity, fresh_ttl_ms, stale_extension_ms }
    }

    /// Look a fingerprint up at `now_ms`.  An entry beyond its whole lifetime
    /// is not returned.
    pub fn get(&self, key: CacheKey, now_ms: u64) -> (r: Option<(&RoutePlan, CacheStatus, &Option<
        String,
    >)>)
        ensures
            match cache_find(self@, key.0) {
                Some(e) => {
                    if status_of(e, self.fresh_ttl_ms, self.stale_extension_ms, now_ms)
                        == CacheStatus::Miss {
                        r is None
                    } else {
                        r matches Some((plan, status, reason)) && *plan == e.plan && status
                            == status_of(e, self.fresh_ttl_ms, self.stale_extension_ms, now_ms)
                            && *reason == e.route_reason
                    }
                },
                None => r is None,
            },
    {
        let mut i: usize = 0;
        while i < self.entries.len()
            invariant
                i <= self.entries@.len(),
                forall|j: int| 0 <= j < i ==> self.entries@[j].0 != key.0,
            decreases self.entries@.len() - i,
        {
            if self.entries[i].0 == key.0 {
                proof {
                    lemma_cache_find_at(self.entries@, key.0, i as int);
                }
                let e = &self.entries[i].1;
                let age: u64 = if now_ms >= e.inserted_at_ms {
                    now_ms - e.inserted_at_ms
                } else {
                    0
                };
                if age > self.fresh_ttl_ms && age - self.fresh_ttl_ms > self.stale_extension_ms {
                    return None;
                }
                let expired = match &e.valid_until_ms {
                    Some(v) => *v <= now_ms,
                    None => false,
                };
                let status = if age > self.fresh_ttl_ms {
                    CacheStatus::Stale
                } else if expired {
                    CacheStatus::Stale
                } else {
                    CacheStatus::Hit
                };
                return Some((&e.plan, status, &e.route_reason));
            }
            i = i + 1;
        }
        proof {
            lemma_cache_find_none(self.entries@, key.0);
        }
        None
    }

    /// Insert or overwrite the entry for a fingerprint; at capacity the
    /// earliest-inserted entry is evicted first (insertion order).  Other
    /// fingerprints keep their entry or lose it to eviction; none changes to
    /// a different plan.
    pub fn insert(
        &mut self,
        key: CacheKey,
        plan: RoutePlan,
        now_ms: u64,
        valid_until_ms: Option<u64>,
        route_reason: Option<String>,
    )
        requires
            old(self).capacity >= 1,
            wf_cache(old(self)@),
        ensures
            wf_cache(final (self)@),
            cache_find(final (self)@, key.0) matches Some(e) && e.plan == plan && e.inserted_at_ms
                == now_ms && e.valid_until_ms == valid_until_ms && e.route_reason == route_reason,
            forall|k2: u64|
                k2 != key.0 ==> (cache_find(final (self)@, k2) == cache_find(old(self)@, k2)
                    || cache_find(final (self)@, k2) is None),
            forall|j: int|
                0 <= j < final (self)@.len() ==> final (self)@[j].0 == key.0 || (exists|i: int|
                    0 <= i < old(self)@.len() && final (self)@[j] == #[trigger] old(self)@[i]),
            final (self)@.len() <= old(self)@.len() + 1,
            final (self).capacity == old(self).capacity,
            final (self).fresh_ttl_ms == old(self).fresh_ttl_ms,
            final (self).stale_extension_ms == old(self).stale_extension_ms,
    {
        let entry = CachedPlan { plan, inserted_at_ms: now_ms, valid_until_ms, route_reason };
        let ghost gentry = entry;
        if let Some(i) = find_index(&self.entries, key.0) {
            let pair = (key.0, entry);
            let ghost gpair = pair;
            let ghost sold = self.entries@;
            self.entries.set(i, pair);
            proof {
                assert(self.entries@ == sold.update(i as int, gpair));
                assert(gpair.1 == gentry);
                assert forall|a: int, b: int| 0 <= a < b < self.entries@.len() implies self.entries@[a].0
                    != self.entries@[b].0 by {
                    assert(self.entries@[a].0 == sold[a].0);
                    assert(self.entries@[b].0 == sold[b].0);
                }
                lemma_cache_find_at(self.entries@, key.0, i as int);
                assert forall|k2: u64| k2 != key.0 implies cache_find(self.entries@, k2)
                    == cache_find(sold, k2) by {
                    lemma_cache_find_update(sold, i as int, gpair, k2);
                }
                assert forall|j: int| 0 <= j < self.entries@.len() implies self.entries@[j].0
                    == key.0 || (exists|i2: int|
                    0 <= i2 < sold.len() && self.entries@[j] == #[trigger] sold[i2]) by {
                    if j != i {
                        assert(self.entries@[j] == sold[j]);
                    }
                }
            }
            return ;
        }
        if self.entries.len() >= self.capacity {
            let ghost sold0 = self.entries@;
            self.entries.remove(0);
            proof {
                assert(self.entries@ =~= sold0.drop_first());
                assert forall|k2: u64|
                    cache_find(self.entries@, k2) == cache_find(sold0, k2) || cache_find(
                        self.entries@,
                        k2,
                    ) is None by {
                    lemma_cache_find_tail(sold0, self.entries@, k2);
                }
            }
        }
        let pair = (key.0, entry);
        let ghost gpair = pair;
        let ghost sold = self.entries@;
        self.entries.push(pair);
        proof {
            assert(self.entries@ == sold.push(gpair));
            assert forall|j: int| 0 <= j < sold.len() implies sold[j].0 != key.0 by {
                if old(self)@.len() >= self.capacity {
                    assert(sold[j] == old(self)@[j + 1]);
                } else {
                    assert(sold[j] == old(self)@[j]);
                }
            }
            lemma_cache_find_push_hit(sold, gpair);
            assert forall|k2: u64| k2 != key.0 implies (cache_find(self.entries@, k2) == cache_find(
                old(self)@,
                k2,
            ) || cache_find(self.entries@, k2) is None) by {
                lemma_cache_find_push(sold, gpair, k2);
                if old(self)@.len() >= self.capacity {
                    lemma_cache_find_tail(old(self)@, sold, k2);
                }
            }
            assert forall|j: int| 0 <= j < self.entries@.len() implies self.entries@[j].0 == key.0
                || (exists|i2: int|
                0 <= i2 < old(self)@.len() && self.entries@[j] == #[trigger] old(self)@[i2]) by {
                if j < sold.len() {
                    if old(self)@.len() >= self.capacity {
                        assert(self.entries@[j] == old(self)@[j + 1]);
                    } else {
                        assert(self.entries@[j] == old(self)@[j]);
                    }
                }
            }
            assert forall|a: int, b: int| 0 <= a < b < self.entries@.len() implies self.entries@[a].0
                != self.entries@[b].0 by {
                if b < sold.len() {
                    if old(self)@.len() >= self.capacity {
                        assert(self.entries@[a] == old(self)@[a + 1]);
                        assert(self.entries@[b] == old(self)@[b + 1]);
                    } else {
                        assert(self.entries@[a] == old(self)@[a]);
                        assert(self.entries@[b] == old(self)@[b]);
                    }
                } else {
                    assert(self.entries@[b] == gpair);
                    assert(sold[a].0 != key.0);
                }
            }
        }
    }

    /// Invalidate every entry; the next fetch of any fingerprint misses.
    pub fn clear(&mut self)
        ensures
            final (self)@.len() == 0,
            wf_cache(final (self)@),
            forall|k: u64| cache_find(final (self)@, k) is None,
            final (self).capacity == old(self).capacity,
            final (self).fresh_ttl_ms == old(self).fresh_ttl_ms,
            final (self).stale_extension_ms == old(self).stale_extension_ms,
    {
        self.entries = Vec::new();
    }
}

proof fn lemma_cache_find_prefix_miss(s: Seq<(u64, CachedPlan)>, k: u64, i: int)
    requires
        0 <= i <= s.len(),
        forall|j: int| 0 <= j < i ==> s[j].0 != k,
    ensures
        cache_find(s, k) == cache_find(s.subrange(i, s.len() as int), k),
    decreases i,
{
    if i > 0 {
        lemma_cache_find_prefix_miss(s.drop_first(), k, i - 1);
        assert(s.drop_first().subrange(i - 1, s.drop_first().len() as int) =~= s.subrange(
            i,
            s.len() as int,
        ));
    } else {
        assert(s.subrange(0, s.len() as int) =~= s);
    }
}

proof fn lemma_cache_find_none(s: Seq<(u64, CachedPlan)>, k: u64)
    requires
        forall|j: int| 0 <= j < s.len() ==> s[j].0 != k,
    ensures
        cache_find(s, k) is None,
{
    lemma_cache_find_prefix_miss(s, k, s.len() as int);
}

proof fn lemma_cache_find_at(s: Seq<(u64, CachedPlan)>, k: u64, i: int)
    requires
        0 <= i < s.len(),
        s[i].0 == k,
        forall|j: int| 0 <= j < i ==> s[j].0 != k,
    ensures
        cache_find(s, k) == Some(s[i].1),
{
    lemma_cache_find_prefix_miss(s, k, i);
    assert(s.subrange(i, s.len() as int).first() == s[i]);
}

proof fn lemma_cache_find_update(s: Seq<(u64, CachedPlan)>, i: int, p: (u64, CachedPlan), k2: u64)
    requires
        0 <= i < s.len(),
        forall|j: int| 0 <= j < i ==> s[j].0 != p.0,
        s[i].0 == p.0,
        k2 != p.0,
    ensures
        cache_find(s.update(i, p), k2) == cache_find(s, k2),
    decreases i,
{
    let s2 = s.update(i, p);
    if i == 0 {
        assert(s2.first() == p);
        assert(s2.drop_first() =~= s.drop_first());
    } else {
        assert(s2.first() == s.first());
        assert(s2.drop_first() =~= s.drop_first().update(i - 1, p));
        lemma_cache_find_update(s.drop_first(), i - 1, p, k2);
    }
}

proof fn lemma_cache_find_push(s: Seq<(u64, CachedPlan)>, p: (u64, CachedPlan), k2: u64)
    requires
        k2 != p.0,
    ensures
        cache_find(s.push(p), k2) == cache_find(s, k2),
    decreases s.len(),
{
    if s.len() == 0 {
        assert(s.push(p).first() == p);
        assert(s.push(p).drop_first() =~= s);
    } else {
        assert(s.push(p).first() == s.first());
        assert(s.push(p).drop_first() =~= s.drop_first().push(p));
        lemma_cache_find_push(s.drop_first(), p, k2);
    }
}

proof fn lemma_cache_find_push_hit(s: Seq<(u64, CachedPlan)>, p: (u64, CachedPlan))
    requires
        forall|j: int| 0 <= j < s.len() ==> s[j].0 != p.0,
    ensures
        cache_find(s.push(p), p.0) == Some(p.1),
{
    lemma_cache_find_at(s.push(p), p.0, s.len() as int);
}

/// Dropping the front entry of a uniquely keyed cache keeps every other
/// binding and loses the front one.
proof fn lemma_cache_find_tail(s: Seq<(u64, CachedPlan)>, t: Seq<(u64, CachedPlan)>, k: u64)
    requires
        s.len() > 0,
        t =~= s.drop_first(),
        wf_cache(s),
    ensures
        cache_find(t, k) == cache_find(s, k) || cache_find(t, k) is None,
{
    if s.first().0 == k {
        assert(forall|j: int| 0 <= j < t.len() ==> t[j] == s[j + 1]);
        assert forall|j: int| 0 <= j < t.len() implies t[j].0 != k by {
            assert(s[0].0 != s[j + 1].0);
        }
        lemma_cache_find_none(t, k);
    } else {
        assert(cache_find(s, k) == cache_find(s.drop_first(), k));
    }
}


/// A found entry is stored at some index under its key.
pub proof fn lemma_cache_find_member(s: Seq<(u64, CachedPlan)>, k: u64)
    ensures
        cache_find(s, k) matches Some(v) ==> exists|i: int|
            0 <= i < s.len() && (#[trigger] s[i]).1 == v && s[i].0 == k,
    decreases s.len(),
{
    if s.len() > 0 {
        if s.first().0 == k {
            assert(s[0].1 == s.first().1 && s[0].0 == k);
        } else {
            lemma_cache_find_member(s.drop_first(), k);
            match cache_find(s, k) {
                Some(v) => {
                    let i = choose|i: int|
                        0 <= i < s.drop_first().len() && (#[trigger] s.drop_first()[i]).1 == v
                            && s.drop_first()[i].0 == k;
                    assert(s[i + 1].1 == v && s[i + 1].0 == k);
                },
                None => {},
            }
        }
    }
}

/// With unique keys, any index holding a key holds the found entry.
pub proof fn lemma_cache_find_key_unique(s: Seq<(u64, CachedPlan)>, k: u64, j: int)
    requires
        wf_cache(s),
        0 <= j < s.len(),
        s[j].0 == k,
    ensures
        cache_find(s, k) == Some(s[j].1),
{
    assert forall|j2: int| 0 <= j2 < j implies s[j2].0 != k by {
        assert(s[j2].0 != s[j].0);
    }
    lemma_cache_find_at(s, k, j);
}

} // verus!
