//! The per-actor, per-action token-bucket rate limiter.
//!
//! A bucket refills continuously, one token per configured interval, up to a
//! burst ceiling. Checking the limit debits one token or fails with the
//! duration after which a token will be available. First publishes and
//! version updates draw from distinct buckets.

use vstd::arithmetic::div_mod::{lemma_fundamental_div_mod, lemma_mod_bound};
use vstd::prelude::*;

verus! {

/// The rate-limited action kinds that reach the registry core.
#[derive(Clone, Copy, Debug, PartialEq, Eq, Structural)]
pub enum LimitedAction {
    /// First publish of a never-before-registered name.
    PublishNew,
    /// Publish of a new version of an existing package.
    PublishUpdate,
}

/// Configuration of one bucket family: one token accrues per
/// `refill_interval_secs`, up to `burst` stored tokens.
#[derive(Clone, Copy, Debug, PartialEq, Eq, Structural)]
pub struct BucketConfig {
    pub refill_interval_secs: u64,
    pub burst: u64,
}

impl BucketConfig {
    pub open spec fn wf(self) -> bool {
        &&& self.refill_interval_secs >= 1
        &&& self.burst >= 1
        &&& self.burst <= 0x7fff_ffff_ffff_ffff
    }
}

/// One actor's bucket for one action kind.
#[derive(Clone, Copy, Debug, PartialEq, Eq, Structural)]
pub struct Bucket {
    pub user_id: u64,
    pub action: LimitedAction,
    pub tokens: u64,
    pub last_refill: u64,
}

/// Seconds elapsed since the bucket last refilled; a clock that moved
/// backwards counts as no elapsed time.
pub open spec fn spec_elapsed(b: Bucket, now: u64) -> int {
    if now >= b.last_refill {
        now - b.last_refill
    } else {
        0
    }
}

/// Tokens accrued since the last refill.
pub open spec fn spec_accrued(cfg: BucketConfig, b: Bucket, now: u64) -> int {
    spec_elapsed(b, now) / cfg.refill_interval_secs as int
}

/// Tokens available once the bucket has refilled at `now`.
pub open spec fn spec_available(cfg: BucketConfig, b: Bucket, now: u64) -> int {
    vstd::math::min(cfg.burst as int, b.tokens + spec_accrued(cfg, b, now))
}

/// Seconds until the next token accrues.
pub open spec fn spec_retry_after(cfg: BucketConfig, b: Bucket, now: u64) -> int {
    cfg.refill_interval_secs - (spec_elapsed(b, now) % cfg.refill_interval_secs as int)
}

/// The bucket after a successful refill-and-debit at `now`.
pub open spec fn spec_bucket_after(cfg: BucketConfig, b: Bucket, now: u64) -> Bucket {
    Bucket {
        user_id: b.user_id,
        action: b.action,
        tokens: (spec_available(cfg, b, now) - 1) as u64,
        last_refill: (b.last_refill + spec_accrued(cfg, b, now) * cfg.refill_interval_secs) as u64,
    }
}

/// Whether some bucket is keyed by the actor and action.
pub open spec fn spec_has_bucket(bs: Seq<Bucket>, user_id: u64, action: LimitedAction) -> bool {
    exists|i: int|
        0 <= i < bs.len() && (#[trigger] bs[i]).user_id == user_id && bs[i].action == action
}

/// The position of the bucket keyed by the actor and action; unique when the
/// keys are pairwise distinct.
pub open spec fn spec_bucket_idx(bs: Seq<Bucket>, user_id: u64, action: LimitedAction) -> int {
    choose|i: int|
        0 <= i < bs.len() && (#[trigger] bs[i]).user_id == user_id && bs[i].action == action
}

/// Pairwise distinctness of bucket keys.
pub open spec fn buckets_keyed(bs: Seq<Bucket>) -> bool {
    forall|i: int, j: int|
        0 <= i < j < bs.len() ==> !((#[trigger] bs[i]).user_id == (#[trigger] bs[j]).user_id
            && bs[i].action == bs[j].action)
}

/// Whether the actor may proceed: an absent bucket counts as full.
pub open spec fn rate_allowed(
    cfg: BucketConfig,
    bs: Seq<Bucket>,
    user_id: u64,
    action: LimitedAction,
    now: u64,
) -> bool {
    !spec_has_bucket(bs, user_id, action) || spec_available(
        cfg,
        bs[spec_bucket_idx(bs, user_id, action)],
        now,
    ) > 0
}

/// The bucket table after a successful check: the actor's bucket refilled
/// and debited by one token, created at one below burst when absent.
pub open spec fn spec_buckets_after(
    cfg: BucketConfig,
    bs: Seq<Bucket>,
    user_id: u64,
    action: LimitedAction,
    now: u64,
) -> Seq<Bucket> {
    if spec_has_bucket(bs, user_id, action) {
        let i = spec_bucket_idx(bs, user_id, action);
        bs.update(i, spec_bucket_after(cfg, bs[i], now))
    } else {
        bs.push(
            Bucket { user_id, action, tokens: (cfg.burst - 1) as u64, last_refill: now },
        )
    }
}

/// A successful check keeps bucket keys pairwise distinct.
pub proof fn lemma_buckets_after_keyed(
    cfg: BucketConfig,
    bs: Seq<Bucket>,
    user_id: u64,
    action: LimitedAction,
    now: u64,
)
    requires
        buckets_keyed(bs),
    ensures
        buckets_keyed(spec_buckets_after(cfg, bs, user_id, action, now)),
{
    let after = spec_buckets_after(cfg, bs, user_id, action, now);
    if spec_has_bucket(bs, user_id, action) {
        let i = spec_bucket_idx(bs, user_id, action);
        assert(0 <= i < bs.len() && bs[i].user_id == user_id && bs[i].action == action);
        assert forall|p: int, q: int| 0 <= p < q < after.len() implies !((#[trigger] after[p]).user_id
            == (#[trigger] after[q]).user_id && after[p].action == after[q].action) by {
            assert(after[p].user_id == bs[p].user_id && after[p].action == bs[p].action);
            assert(after[q].user_id == bs[q].user_id && after[q].action == bs[q].action);
        }
    } else {
        assert forall|p: int, q: int| 0 <= p < q < after.len() implies !((#[trigger] after[p]).user_id
            == (#[trigger] after[q]).user_id && after[p].action == after[q].action) by {
            if q == bs.len() as int {
                assert(after[p] == bs[p]);
                assert(!(bs[p].user_id == user_id && bs[p].action == action));
            } else {
                assert(after[p] == bs[p] && after[q] == bs[q]);
            }
        }
    }
}

/// Checks the actor's rate limit for one action kind, debiting one token on
/// success; on failure nothing changes and the retry-after hint says when a
/// token accrues.
pub fn check_rate_limit(
    buckets: &mut Vec<Bucket>,
    cfg: BucketConfig,
    user_id: u64,
    action: LimitedAction,
    now: u64,
) -> (r: Result<(), u64>)
    requires
        cfg.wf(),
        buckets_keyed(old(buckets)@),
    ensures
        r is Ok <==> rate_allowed(cfg, old(buckets)@, user_id, action, now),
        r is Ok ==> final(buckets)@ == spec_buckets_after(cfg, old(buckets)@, user_id, action, now),
        r matches Err(ra) ==> final(buckets)@ == old(buckets)@ && spec_has_bucket(
            old(buckets)@,
            user_id,
            action,
        ) && ra as int == spec_retry_after(
            cfg,
            old(buckets)@[spec_bucket_idx(old(buckets)@, user_id, action)],
            now,
        ),
        buckets_keyed(final(buckets)@),
{
    let n = buckets.len();
    let mut i: usize = 0;
    while i < n
        invariant
            cfg.wf(),
            n == buckets@.len(),
            i <= n,
            buckets@ == old(buckets)@,
            buckets_keyed(buckets@),
            forall|j: int|
                0 <= j < i ==> !((#[trigger] buckets@[j]).user_id == user_id && buckets@[j].action
                    == action),
        decreases n - i,
    {
        if buckets[i].user_id == user_id && buckets[i].action == action {
            let b = buckets[i];
            let ghost bs = buckets@;
            let ghost idx = spec_bucket_idx(bs, user_id, action);
            proof {
                assert(spec_has_bucket(bs, user_id, action)) by {
                    assert(bs[i as int].user_id == user_id && bs[i as int].action == action);
                }
                assert(0 <= idx < bs.len() && bs[idx].user_id == user_id && bs[idx].action
                    == action);
                if idx < i as int {
                    assert(!(bs[idx].user_id == bs[i as int].user_id && bs[idx].action
                        == bs[i as int].action));
                } else if idx > i as int {
                    assert(!(bs[i as int].user_id == bs[idx].user_id && bs[i as int].action
                        == bs[idx].action));
                }
                assert(idx == i as int);
            }
            let elapsed: u64 = if now >= b.last_refill {
                now - b.last_refill
            } else {
                0
            };
            let accrued: u64 = elapsed / cfg.refill_interval_secs;
            proof {
                lemma_fundamental_div_mod(elapsed as int, cfg.refill_interval_secs as int);
                lemma_mod_bound(elapsed as int, cfg.refill_interval_secs as int);
                assert(accrued as int * cfg.refill_interval_secs as int
                    == cfg.refill_interval_secs as int * accrued as int) by (nonlinear_arith);
                assert(accrued as int * cfg.refill_interval_secs as int <= elapsed as int);
            }
            let add: u64 = if accrued > cfg.burst {
                cfg.burst
            } else {
                accrued
            };
            let avail: u64 = if b.tokens > cfg.burst {
                cfg.burst
            } else if b.tokens + add > cfg.burst {
                cfg.burst
            } else {
                b.tokens + add
            };
            assert(avail as int == spec_available(cfg, b, now));
            if avail == 0 {
                let retry: u64 = cfg.refill_interval_secs - (elapsed % cfg.refill_interval_secs);
                return Err(retry);
            }
            let updated = Bucket {
                user_id: b.user_id,
                action: b.action,
                tokens: avail - 1,
                last_refill: b.last_refill + accrued * cfg.refill_interval_secs,
            };
            assert(updated == spec_bucket_after(cfg, b, now));
            buckets.set(i, updated);
            assert(buckets@ =~= spec_buckets_after(cfg, bs, user_id, action, now));
            return Ok(());
        }
        i = i + 1;
    }
    assert(!spec_has_bucket(buckets@, user_id, action));
    let fresh = Bucket { user_id, action, tokens: cfg.burst - 1, last_refill: now };
    buckets.push(fresh);
    assert(buckets@ =~= spec_buckets_after(cfg, old(buckets)@, user_id, action, now));
    Ok(())
}

} // verus!
