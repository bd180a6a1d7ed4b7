//! Admission control: one token bucket per caller identity.
//!
//! A bucket holds at most `capacity` tokens and gains one token each full
//! `refill_period_ms` (stepped refill: time short of a full period is kept for the
//! next step). A request is allowed when its bucket holds a token, which it spends.

use vstd::prelude::*;
use std::collections::HashMap;
use crate::text::{strip_prefix, strip_prefix_spec};
use crate::timeline::{fnv_hash, fnv_hash_of};

verus! {

broadcast use vstd::std_specs::hash::group_hash_axioms;

/// How a set of buckets fills.
#[derive(Clone, Copy, Debug, PartialEq, Eq, Structural)]
pub struct RateConfig {
    pub capacity: u64,
    pub refill_period_ms: u64,
}

impl RateConfig {
    pub open spec fn wf(self) -> bool {
        self.capacity >= 1 && self.refill_period_ms >= 1
    }
}

/// The state of one caller's bucket.
#[derive(Clone, Copy, Debug, PartialEq, Eq, Structural)]
pub struct Bucket {
    pub tokens: u64,
    /// When the last whole refill step was counted, in milliseconds.
    pub last_refill_ms: u64,
}

/// A bucket as a new caller gets it: full.
pub open spec fn fresh_bucket(cfg: RateConfig, now: u64) -> Bucket {
    Bucket { tokens: cfg.capacity, last_refill_ms: now }
}

/// The bucket at time `now`, refilled by the whole periods since its last step.
pub open spec fn refilled(b: Bucket, cfg: RateConfig, now: u64) -> Bucket {
    if now <= b.last_refill_ms || cfg.refill_period_ms == 0 {
        b
    } else {
        let gained = (now - b.last_refill_ms) as int / cfg.refill_period_ms as int;
        if b.tokens + gained >= cfg.capacity {
            Bucket { tokens: cfg.capacity, last_refill_ms: now }
        } else {
            Bucket {
                tokens: (b.tokens + gained) as u64,
                last_refill_ms: (b.last_refill_ms + gained * cfg.refill_period_ms) as u64,
            }
        }
    }
}

/// Whether a request at `now` is allowed, and the bucket after it.
pub open spec fn allow_spec(b: Bucket, cfg: RateConfig, now: u64) -> (bool, Bucket) {
    let r = refilled(b, cfg, now);
    if r.tokens >= 1 {
        (true, Bucket { tokens: (r.tokens - 1) as u64, last_refill_ms: r.last_refill_ms })
    } else {
        (false, r)
    }
}

/// A bucket that would be full again at `now`: forgetting it changes nothing.
pub open spec fn is_idle(b: Bucket, cfg: RateConfig, now: u64) -> bool {
    refilled(b, cfg, now).tokens >= cfg.capacity
}

/// The bucket after `k` requests at the same instant `now`.
pub open spec fn after_requests(b: Bucket, cfg: RateConfig, now: u64, k: nat) -> Bucket
    decreases k,
{
    if k == 0 {
        b
    } else {
        allow_spec(after_requests(b, cfg, now, (k - 1) as nat), cfg, now).1
    }
}

proof fn lemma_drain(cfg: RateConfig, now: u64, k: nat)
    requires
        cfg.wf(),
        k <= cfg.capacity,
    ensures
        after_requests(fresh_bucket(cfg, now), cfg, now, k) == (Bucket {
            tokens: (cfg.capacity - k) as u64,
            last_refill_ms: now,
        }),
    decreases k,
{
    if k > 0 {
        lemma_drain(cfg, now, (k - 1) as nat);
    }
}

/// A new caller's requests at one instant are allowed `capacity` times and then refused;
/// one refill period later exactly one more is allowed.
pub proof fn lemma_burst_then_one_per_period(cfg: RateConfig, now: u64)
    requires
        cfg.wf(),
        now + cfg.refill_period_ms <= u64::MAX,
    ensures
        forall|k: nat|
            k < cfg.capacity ==> #[trigger] allow_spec(
                after_requests(fresh_bucket(cfg, now), cfg, now, k),
                cfg,
                now,
            ).0,
        !allow_spec(after_requests(fresh_bucket(cfg, now), cfg, now, cfg.capacity as nat), cfg, now).0,
        ({
            let drained = after_requests(fresh_bucket(cfg, now), cfg, now, cfg.capacity as nat + 1);
            let later = (now + cfg.refill_period_ms) as u64;
            &&& allow_spec(drained, cfg, later).0
            &&& !allow_spec(allow_spec(drained, cfg, later).1, cfg, later).0
        }),
{
    assert forall|k: nat| k < cfg.capacity implies #[trigger] allow_spec(
        after_requests(fresh_bucket(cfg, now), cfg, now, k),
        cfg,
        now,
    ).0 by {
        lemma_drain(cfg, now, k);
    }
    lemma_drain(cfg, now, cfg.capacity as nat);
    let drained = after_requests(fresh_bucket(cfg, now), cfg, now, cfg.capacity as nat + 1);
    assert(drained == Bucket { tokens: 0, last_refill_ms: now });
    let later = (now + cfg.refill_period_ms) as u64;
    assert((later - now) as int / cfg.refill_period_ms as int == 1) by (nonlinear_arith)
        requires
            later - now == cfg.refill_period_ms,
            cfg.refill_period_ms >= 1,
    ;
}

fn refill(b: Bucket, cfg: RateConfig, now: u64) -> (r: Bucket)
    requires
        cfg.wf(),
        b.tokens <= cfg.capacity,
    ensures
        r == refilled(b, cfg, now),
        r.tokens <= cfg.capacity,
{
    if now <= b.last_refill_ms {
        b
    } else {
        let gained = (now - b.last_refill_ms) / cfg.refill_period_ms;
        if gained >= cfg.capacity - b.tokens {
            Bucket { tokens: cfg.capacity, last_refill_ms: now }
        } else {
            assert(gained * cfg.refill_period_ms <= now - b.last_refill_ms) by (nonlinear_arith)
                requires
                    gained == (now - b.last_refill_ms) as int / cfg.refill_period_ms as int,
                    cfg.refill_period_ms >= 1,
                    now > b.last_refill_ms,
            ;
            Bucket {
                tokens: b.tokens + gained,
                last_refill_ms: b.last_refill_ms + gained * cfg.refill_period_ms,
            }
        }
    }
}

/// Token buckets for many callers, each keyed by a number that stands for the caller.
pub struct RateGovernor {
    config: RateConfig,
    buckets: HashMap<u64, Bucket>,
    /// The keys of `buckets`, each once.
    keys: Vec<u64>,
}

impl RateGovernor {
    pub closed spec fn config_spec(&self) -> RateConfig {
        self.config
    }

    /// The buckets of the callers seen and not reclaimed.
    pub closed spec fn buckets_spec(&self) -> Map<u64, Bucket> {
        self.buckets@
    }

    pub closed spec fn wf(&self) -> bool {
        &&& self.config.wf()
        &&& forall|k: u64| #[trigger] self.buckets@.contains_key(k) ==> self.buckets@[k].tokens <= self.config.capacity
        &&& forall|k: u64| #[trigger] self.buckets@.contains_key(k) <==> self.keys@.contains(k)
        &&& self.keys@.no_duplicates()
    }

    /// The bucket that `key` has at the moment (a full one at `now` if it has none).
    pub open spec fn bucket_of(&self, key: u64, now: u64) -> Bucket {
        if self.buckets_spec().contains_key(key) {
            self.buckets_spec()[key]
        } else {
            fresh_bucket(self.config_spec(), now)
        }
    }

    pub fn new(config: RateConfig) -> (r: RateGovernor)
        requires
            config.wf(),
        ensures
            r.wf(),
            r.config_spec() == config,
            r.buckets_spec() == Map::<u64, Bucket>::empty(),
    {
        let r = RateGovernor { config, buckets: HashMap::new(), keys: Vec::new() };
        assert(r.buckets@ =~= Map::<u64, Bucket>::empty());
        r
    }

    /// Allows or refuses a request of caller `key` at `now_ms`, spending a token if allowed.
    pub fn allow(&mut self, key: u64, now_ms: u64) -> (r: bool)
        requires
            old(self).wf(),
        ensures
            final(self).wf(),
            final(self).config_spec() == old(self).config_spec(),
            r == allow_spec(old(self).bucket_of(key, now_ms), old(self).config_spec(), now_ms).0,
            final(self).buckets_spec() == old(self).buckets_spec().insert(
                key,
                allow_spec(old(self).bucket_of(key, now_ms), old(self).config_spec(), now_ms).1,
            ),
    {
        let cfg = self.config;
        let (current, was_known) = match self.buckets.get(&key) {
            Some(b) => (*b, true),
            None => (Bucket { tokens: cfg.capacity, last_refill_ms: now_ms }, false),
        };
        let b = refill(current, cfg, now_ms);
        let (allowed, next) = if b.tokens >= 1 {
            (true, Bucket { tokens: b.tokens - 1, last_refill_ms: b.last_refill_ms })
        } else {
            (false, b)
        };
        self.buckets.insert(key, next);
        if !was_known {
            self.keys.push(key);
            proof {
                assert forall|k: u64| #[trigger] self.buckets@.contains_key(k) <==> self.keys@.contains(k) by {
                    if k != key {
                        if old(self).keys@.contains(k) {
                            let i = choose|i: int| 0 <= i < old(self).keys@.len() && old(self).keys@[i] == k;
                            assert(self.keys@[i] == k);
                        }
                        if self.keys@.contains(k) {
                            let i = choose|i: int| 0 <= i < self.keys@.len() && self.keys@[i] == k;
                            assert(old(self).keys@[i] == k);
                        }
                    } else {
                        assert(self.keys@[self.keys@.len() - 1] == key);
                    }
                }
            }
        } else {
            assert(self.keys@.contains(key));
        }
        allowed
    }

    /// Forgets every bucket that would be full again at `now_ms`; the rest stay as they are.
    pub fn retain_recent(&mut self, now_ms: u64)
        requires
            old(self).wf(),
        ensures
            final(self).wf(),
            final(self).config_spec() == old(self).config_spec(),
            forall|k: u64| #[trigger] final(self).buckets_spec().contains_key(k) <==> (
                old(self).buckets_spec().contains_key(k) && !is_idle(
                    old(self).buckets_spec()[k],
                    old(self).config_spec(),
                    now_ms,
                )),
            forall|k: u64| #[trigger] final(self).buckets_spec().contains_key(k)
                ==> final(self).buckets_spec()[k] == old(self).buckets_spec()[k],
    {
        let cfg = self.config;
        let mut kept: HashMap<u64, Bucket> = HashMap::new();
        let mut kept_keys: Vec<u64> = Vec::new();
        let mut i: usize = 0;
        while i < self.keys.len()
            invariant
                self == old(self),
                self.wf(),
                i <= self.keys@.len(),
                kept_keys@.no_duplicates(),
                forall|k: u64| #[trigger] kept@.contains_key(k) <==> kept_keys@.contains(k),
                forall|k: u64| #[trigger] kept@.contains_key(k) <==> (self.keys@.subrange(0, i as int).contains(k)
                    && !is_idle(self.buckets@[k], cfg, now_ms)),
                forall|k: u64| #[trigger] kept@.contains_key(k) ==> kept@[k] == self.buckets@[k],
                cfg == self.config,
            decreases self.keys@.len() - i,
        {
            let key = self.keys[i];
            assert(self.keys@.contains(key));
            let b = match self.buckets.get(&key) {
                Some(b) => *b,
                None => Bucket { tokens: 0, last_refill_ms: 0 },
            };
            let r = refill(b, cfg, now_ms);
            let ghost before_keys = kept_keys@;
            let ghost pre = self.keys@.subrange(0, i as int);
            let ghost pre1 = self.keys@.subrange(0, i as int + 1);
            proof {
                assert(pre1 =~= pre.push(key));
                assert forall|k: u64| pre1.contains(k) <==> (pre.contains(k) || k == key) by {
                    if pre1.contains(k) {
                        let j = choose|j: int| 0 <= j < pre1.len() && pre1[j] == k;
                        if j < i {
                            assert(pre[j] == k);
                        }
                    }
                    if pre.contains(k) {
                        let j = choose|j: int| 0 <= j < pre.len() && pre[j] == k;
                        assert(pre1[j] == k);
                    }
                    if k == key {
                        assert(pre1[i as int] == k);
                    }
                }
                assert(!pre.contains(key)) by {
                    if pre.contains(key) {
                        let j = choose|j: int| 0 <= j < pre.len() && pre[j] == key;
                        assert(self.keys@[j] == self.keys@[i as int]);
                    }
                }
            }
            if r.tokens < cfg.capacity {
                kept.insert(key, b);
                kept_keys.push(key);
                proof {
                    assert forall|k: u64| #[trigger] kept@.contains_key(k) <==> kept_keys@.contains(k) by {
                        if k != key {
                            if before_keys.contains(k) {
                                let j = choose|j: int| 0 <= j < before_keys.len() && before_keys[j] == k;
                                assert(kept_keys@[j] == k);
                            }
                            if kept_keys@.contains(k) {
                                let j = choose|j: int| 0 <= j < kept_keys@.len() && kept_keys@[j] == k;
                                assert(before_keys[j] == k);
                            }
                        } else {
                            assert(kept_keys@[kept_keys@.len() - 1] == key);
                        }
                    }
                }
            }
            i = i + 1;
        }
        assert(self.keys@.subrange(0, self.keys@.len() as int) =~= self.keys@);
        self.buckets = kept;
        self.keys = kept_keys;
    }
}

/// The key of the bucket that callers with no known address share.
pub const GLOBAL_KEY: u64 = 0;

/// Keys authenticated requests by their bearer token.
#[derive(Clone, Copy, Debug, PartialEq, Eq, Structural)]
pub struct GovJwtExtractorHashed;

impl GovJwtExtractorHashed {
    /// The key for an `Authorization` header; `None` where there is no `Bearer ` token.
    pub fn extract(&self, authorization: Option<&str>) -> (r: Option<u64>)
        ensures
            r == match authorization {
                Some(h) => match strip_prefix_spec(h@, "Bearer "@) {
                    Some(token) => Some(fnv_hash_of(token)),
                    None => None,
                },
                None => None,
            },
    {
        match authorization {
            Some(h) => match strip_prefix(h, "Bearer ") {
                Some(token) => Some(fnv_hash(token.as_str())),
                None => None,
            },
            None => None,
        }
    }
}

/// Keys sign-in requests by the caller's address, or by one shared key where it is unknown.
#[derive(Clone, Copy, Debug, PartialEq, Eq, Structural)]
pub struct GovIpOrGlobalExtractorHashed;

impl GovIpOrGlobalExtractorHashed {
    pub fn extract(&self, address: Option<&str>) -> (r: u64)
        ensures
            r == match address {
                Some(a) => fnv_hash_of(a@),
                None => GLOBAL_KEY,
            },
    {
        match address {
            Some(a) => fnv_hash(a),
            None => GLOBAL_KEY,
        }
    }
}

} // verus!
