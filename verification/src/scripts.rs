//! The four atomic store routines of the engine: incrementing and checking
//! a rate-limit window, and incrementing and checking a circuit breaker.
//!
//! Each routine works on the store model under the caller's clock, and is
//! what the engine registers at the remote store to run as a single atomic
//! unit.  A routine that fails writes nothing.

use vstd::prelude::*;
use vstd::string::*;
use crate::store::{
    expiry_live, StoreError, StoredValue, StoredView, StoreModel,
};

verus! {

/// A rate-limit reading: how many attempts the window has seen and when it
/// lapses.
#[derive(Clone, Copy, Debug, PartialEq, Eq, Structural)]
pub struct RateInterface {
    /// Attempts counted in the current window.
    pub attempts: i64,
    /// The moment the current window lapses.
    pub expiration: i64,
}

/// A circuit-breaker reading.
#[derive(Clone, Copy, Debug, PartialEq, Eq, Structural)]
pub struct BreakerInterface {
    /// How many times the breaker has been written.
    pub generation: i64,
    /// Successes recorded in the current window.
    pub successes: i64,
    /// Failures recorded in the current window.
    pub failures: i64,
    /// Successes since the last failure.
    pub consecutive_successes: i64,
    /// Failures since the last success.
    pub consecutive_failures: i64,
    /// The moment the window lapses.
    pub expiration: i64,
}

/// The key of a rate-limit counter.
pub open spec fn rl_counter_key(k: Seq<char>) -> Seq<char> {
    "rl:"@ + k
}

/// The key recording when a rate-limit window lapses.
pub open spec fn rl_expiry_key(k: Seq<char>) -> Seq<char> {
    ("rl:"@ + k) + ":ex"@
}

/// The generation key of a breaker.
pub open spec fn bk_gen_key(k: Seq<char>) -> Seq<char> {
    "bk:g:"@ + k
}

/// The success-count key of a breaker.
pub open spec fn bk_success_key(k: Seq<char>) -> Seq<char> {
    "bk:s:"@ + k
}

/// The failure-count key of a breaker.
pub open spec fn bk_failure_key(k: Seq<char>) -> Seq<char> {
    "bk:f:"@ + k
}

/// The consecutive-success key of a breaker.
pub open spec fn bk_consec_success_key(k: Seq<char>) -> Seq<char> {
    "bk:cs:"@ + k
}

/// The consecutive-failure key of a breaker.
pub open spec fn bk_consec_failure_key(k: Seq<char>) -> Seq<char> {
    "bk:cf:"@ + k
}

/// The two rate-limit keys of one logical key never collide.
proof fn lemma_rl_keys_distinct(k: Seq<char>)
    ensures
        rl_counter_key(k) != rl_expiry_key(k),
{
    reveal_strlit("rl:");
    reveal_strlit(":ex");
    assert(rl_counter_key(k).len() == 3 + k.len());
    assert(rl_expiry_key(k).len() == 6 + k.len());
}

/// The five breaker keys of one logical key are pairwise distinct.
proof fn lemma_bk_keys_distinct(k: Seq<char>)
    ensures
        bk_gen_key(k) != bk_success_key(k),
        bk_gen_key(k) != bk_failure_key(k),
        bk_gen_key(k) != bk_consec_success_key(k),
        bk_gen_key(k) != bk_consec_failure_key(k),
        bk_success_key(k) != bk_failure_key(k),
        bk_success_key(k) != bk_consec_success_key(k),
        bk_success_key(k) != bk_consec_failure_key(k),
        bk_failure_key(k) != bk_consec_success_key(k),
        bk_failure_key(k) != bk_consec_failure_key(k),
        bk_consec_success_key(k) != bk_consec_failure_key(k),
{
    reveal_strlit("bk:g:");
    reveal_strlit("bk:s:");
    reveal_strlit("bk:f:");
    reveal_strlit("bk:cs:");
    reveal_strlit("bk:cf:");
    assert(bk_gen_key(k).len() == 5 + k.len());
    assert(bk_success_key(k).len() == 5 + k.len());
    assert(bk_failure_key(k).len() == 5 + k.len());
    assert(bk_consec_success_key(k).len() == 6 + k.len());
    assert(bk_consec_failure_key(k).len() == 6 + k.len());
    assert(bk_gen_key(k)[3] == 'g');
    assert(bk_success_key(k)[3] == 's');
    assert(bk_failure_key(k)[3] == 'f');
    assert(bk_consec_success_key(k)[4] == 's');
    assert(bk_consec_failure_key(k)[4] == 'f');
}

impl StoreModel {
    /// The counter visible at a key, with absence reading as zero.
    pub open spec fn spec_num_or_zero(self, k: Seq<char>, now: i64) -> i64 {
        match self.spec_num(k, now) {
            Some(v) => v,
            None => 0,
        }
    }

    /// A counter can take the given increment: it is absent, or an integer
    /// whose sum stays in range.
    pub open spec fn spec_ctr_ok(self, k: Seq<char>, delta: i64, now: i64) -> bool {
        match self.spec_value(k, now) {
            Some(StoredView::Bytes(_)) => false,
            Some(StoredView::Int(v)) => i64::MIN <= v + delta <= i64::MAX,
            None => true,
        }
    }

    /// Reads the counter visible at a key.
    fn num_at(&self, key: &str, now: i64) -> (r: Option<i64>)
        requires
            self.wf(),
        ensures
            r == self.spec_num(key@, now),
    {
        match self.get_value(key, now) {
            Some(StoredValue::Int(v)) => Some(v),
            _ => None,
        }
    }
}

/// A rate-limit window is begun afresh when no live expiry is recorded or
/// the recorded one is past.
pub open spec fn rl_reset(pre: StoreModel, k: Seq<char>, now: i64) -> bool {
    match pre.spec_num(rl_expiry_key(k), now) {
        Some(e) => now > e,
        None => true,
    }
}

/// The rate-limit increment succeeds unless a timestamp or the counter
/// would leave the 64-bit range, or the counter holds bytes.
pub open spec fn rl_ok(pre: StoreModel, k: Seq<char>, delta: i64, window: i64, now: i64) -> bool {
    if rl_reset(pre, k, now) {
        i64::MIN <= now + window < i64::MAX
    } else {
        pre.spec_ctr_ok(rl_counter_key(k), delta, now)
    }
}

/// The attempts a successful rate-limit increment reports.
pub open spec fn rl_attempts(pre: StoreModel, k: Seq<char>, delta: i64, now: i64) -> int {
    if rl_reset(pre, k, now) {
        delta as int
    } else {
        pre.spec_num_or_zero(rl_counter_key(k), now) + delta
    }
}

/// The window end a successful rate-limit increment reports.
pub open spec fn rl_expiration(pre: StoreModel, k: Seq<char>, window: i64, now: i64) -> int {
    if rl_reset(pre, k, now) {
        now + window
    } else {
        pre.spec_num_or_zero(rl_expiry_key(k), now) as int
    }
}

/// How the rate-limit increment steps the store: no change on failure;
/// on success the two rate-limit keys of the logical key are rewritten as
/// the routine prescribes and every other key is untouched.
pub open spec fn rl_step(
    pre: StoreModel,
    post: StoreModel,
    k: Seq<char>,
    delta: i64,
    window: i64,
    now: i64,
    r: Result<RateInterface, StoreError>,
) -> bool {
    &&& post.wf()
    &&& (r is Ok <==> rl_ok(pre, k, delta, window, now))
    &&& (r is Err ==> forall|k2: Seq<char>| post.spec_cell(k2) == pre.spec_cell(k2))
    &&& (r is Ok ==> r->Ok_0.attempts == rl_attempts(pre, k, delta, now)
        && r->Ok_0.expiration == rl_expiration(pre, k, window, now))
    &&& (r is Ok && rl_reset(pre, k, now) ==> ({
        let exp = now + window;
        post.spec_cell(rl_expiry_key(k)) == Some(
            (StoredView::Int(exp as i64), Some((exp + 1) as i64)),
        ) && post.spec_cell(rl_counter_key(k)) == Some(
            (
                StoredView::Int(delta),
                if window >= 0 {
                    Some((exp + 1) as i64)
                } else {
                    Option::<i64>::None
                },
            ),
        )
    }))
    &&& (r is Ok && !rl_reset(pre, k, now) ==> post.spec_cell(rl_expiry_key(k)) == pre.spec_cell(
        rl_expiry_key(k),
    ) && post.spec_cell(rl_counter_key(k)) == (match pre.spec_value(rl_counter_key(k), now) {
        Some(StoredView::Int(v)) => Some(
            (StoredView::Int((v + delta) as i64), pre.spec_cell(rl_counter_key(k))->Some_0.1),
        ),
        _ => Some((StoredView::Int(delta), Option::<i64>::None)),
    }))
    &&& (forall|k2: Seq<char>|
        k2 != rl_counter_key(k) && k2 != rl_expiry_key(k) ==> post.spec_cell(k2) == pre.spec_cell(
            k2,
        ))
}

impl StoreModel {
    /// Counts an attempt against a rate-limit window.  When no window is
    /// open (no expiry recorded, or a past one), the counter is reset to
    /// zero, the window is set to `now + window`, and both keys are given
    /// a store-side lapse one second past the window as a safety net.  The
    /// attempt count is then incremented by `delta`.  Fails, writing
    /// nothing, exactly when a timestamp or the counter would leave the
    /// 64-bit range or the counter holds bytes.
    pub fn increment_rate_limit(
        &mut self,
        key: &str,
        delta: i64,
        window: i64,
        now: i64,
    ) -> (r: Result<RateInterface, StoreError>)
        requires
            old(self).wf(),
        ensures
            rl_step(*old(self), *final(self), key@, delta, window, now, r),
    {
        proof {
            lemma_rl_keys_distinct(key@);
        }
        let counter_key = String::from_str("rl:").concat(key);
        let expiry_key = String::from_str("rl:").concat(key).concat(":ex");
        let stored = self.num_at(expiry_key.as_str(), now);
        let reset = match stored {
            Some(e) => now > e,
            None => true,
        };
        if reset {
            let next_wide: i128 = now as i128 + window as i128;
            if next_wide < i64::MIN as i128 || next_wide >= i64::MAX as i128 {
                return Err(StoreError::Overflow);
            }
            let next: i64 = now + window;
            self.set_value(expiry_key.as_str(), StoredValue::Int(next));
            self.set_value(counter_key.as_str(), StoredValue::Int(0));
            let _set_e = self.set_expiry(expiry_key.as_str(), next + 1, now);
            let _set_c = self.set_expiry(counter_key.as_str(), next + 1, now);
            match self.incr_by(counter_key.as_str(), delta, now) {
                Ok(attempts) => Ok(RateInterface { attempts, expiration: next }),
                Err(e) => Err(e),
            }
        } else {
            let expiration = match stored {
                Some(e) => e,
                None => 0,
            };
            match self.incr_by(counter_key.as_str(), delta, now) {
                Ok(attempts) => Ok(RateInterface { attempts, expiration }),
                Err(e) => Err(e),
            }
        }
    }

    /// Reads a rate-limit window without touching it: the attempts and the
    /// window end, or nothing when no counter is recorded or the window is
    /// past.
    pub fn check_rate_limit(&self, key: &str, now: i64) -> (r: Option<RateInterface>)
        requires
            self.wf(),
        ensures
            r == (match self.spec_num(rl_counter_key(key@), now) {
                Some(attempts) => match self.spec_num(rl_expiry_key(key@), now) {
                    Some(e) => if now > e {
                        Option::<RateInterface>::None
                    } else {
                        Some(RateInterface { attempts, expiration: e })
                    },
                    None => None,
                },
                None => None,
            }),
    {
        let counter_key = String::from_str("rl:").concat(key);
        let expiry_key = String::from_str("rl:").concat(key).concat(":ex");
        match self.num_at(counter_key.as_str(), now) {
            Some(attempts) => match self.num_at(expiry_key.as_str(), now) {
                Some(e) => if now > e {
                    None
                } else {
                    Some(RateInterface { attempts, expiration: e })
                },
                None => None,
            },
            None => None,
        }
    }
}

/// The breaker increment succeeds unless a timestamp or one of the touched
/// counters would leave the 64-bit range or holds bytes.
pub open spec fn bk_ok(
    pre: StoreModel,
    k: Seq<char>,
    success_delta: i64,
    failure_delta: i64,
    window: i64,
    now: i64,
) -> bool {
    i64::MIN <= now + window < i64::MAX && pre.spec_ctr_ok(bk_gen_key(k), 1, now) && (
    if success_delta > 0 {
        pre.spec_ctr_ok(bk_success_key(k), success_delta, now) && pre.spec_ctr_ok(
            bk_consec_success_key(k),
            success_delta,
            now,
        )
    } else {
        pre.spec_ctr_ok(bk_failure_key(k), failure_delta, now) && pre.spec_ctr_ok(
            bk_consec_failure_key(k),
            failure_delta,
            now,
        )
    })
}

/// The cell an untouched breaker key shows after the lapse refresh: a live
/// value is kept with the new lapse, anything else is left alone.
pub open spec fn bk_refreshed(pre: StoreModel, k: Seq<char>, exp1: i64, now: i64) -> Option<
    (StoredView, Option<i64>),
> {
    match pre.spec_value(k, now) {
        Some(v) => Some((v, Some(exp1))),
        None => pre.spec_cell(k),
    }
}

/// How the breaker increment steps the store: no change on failure; on
/// success the five breaker keys of the logical key are rewritten as the
/// routine prescribes and every other key is untouched.
pub open spec fn bk_step(
    pre: StoreModel,
    post: StoreModel,
    k: Seq<char>,
    success_delta: i64,
    failure_delta: i64,
    window: i64,
    now: i64,
    r: Result<BreakerInterface, StoreError>,
) -> bool {
    &&& post.wf()
    &&& (r is Ok <==> bk_ok(pre, k, success_delta, failure_delta, window, now))
    &&& (r is Err ==> forall|k2: Seq<char>| post.spec_cell(k2) == pre.spec_cell(k2))
    &&& (r is Ok ==> ({
        let exp = now + window;
        let exp1 = (exp + 1) as i64;
        let gen = pre.spec_num_or_zero(bk_gen_key(k), now) + 1;
        r->Ok_0.generation == gen && r->Ok_0.expiration == exp && post.spec_cell(bk_gen_key(k))
            == Some((StoredView::Int(gen as i64), Some(exp1)))
    }))
    &&& (r is Ok && success_delta > 0 ==> ({
        let exp1 = ((now + window) + 1) as i64;
        let s = pre.spec_num_or_zero(bk_success_key(k), now) + success_delta;
        let cs = pre.spec_num_or_zero(bk_consec_success_key(k), now) + success_delta;
        r->Ok_0.successes == s && r->Ok_0.failures == pre.spec_num_or_zero(bk_failure_key(k), now)
            && r->Ok_0.consecutive_successes == cs && r->Ok_0.consecutive_failures == 0
            && post.spec_cell(bk_success_key(k)) == Some((StoredView::Int(s as i64), Some(exp1)))
            && post.spec_cell(bk_consec_success_key(k)) == Some(
            (StoredView::Int(cs as i64), Some(exp1)),
        ) && post.spec_cell(bk_consec_failure_key(k)) == Some((StoredView::Int(0), Some(exp1)))
            && post.spec_cell(bk_failure_key(k)) == bk_refreshed(pre, bk_failure_key(k), exp1, now)
    }))
    &&& (r is Ok && !(success_delta > 0) ==> ({
        let exp1 = ((now + window) + 1) as i64;
        let f = pre.spec_num_or_zero(bk_failure_key(k), now) + failure_delta;
        let cf = pre.spec_num_or_zero(bk_consec_failure_key(k), now) + failure_delta;
        r->Ok_0.successes == pre.spec_num_or_zero(bk_success_key(k), now) && r->Ok_0.failures == f
            && r->Ok_0.consecutive_successes == 0 && r->Ok_0.consecutive_failures == cf
            && post.spec_cell(bk_failure_key(k)) == Some((StoredView::Int(f as i64), Some(exp1)))
            && post.spec_cell(bk_consec_failure_key(k)) == Some(
            (StoredView::Int(cf as i64), Some(exp1)),
        ) && post.spec_cell(bk_consec_success_key(k)) == Some((StoredView::Int(0), Some(exp1)))
            && post.spec_cell(bk_success_key(k)) == bk_refreshed(pre, bk_success_key(k), exp1, now)
    }))
    &&& (forall|k2: Seq<char>|
        k2 != bk_gen_key(k) && k2 != bk_success_key(k) && k2 != bk_failure_key(k) && k2
            != bk_consec_success_key(k) && k2 != bk_consec_failure_key(k) ==> post.spec_cell(k2)
            == pre.spec_cell(k2))
}

impl StoreModel {
    /// Records one success or failure observation against a circuit
    /// breaker.  The generation counter always advances; a positive
    /// `success_delta` bumps the success counters and resets the
    /// consecutive-failure counter to zero, anything else bumps the
    /// failure counters and resets the consecutive-success counter.  All
    /// five keys then have their store-side lapse refreshed to one second
    /// past `now + window`.  Fails, writing nothing, exactly when a
    /// timestamp or a touched counter would leave the 64-bit range or
    /// holds bytes.
    #[verifier::rlimit(60)]
    pub fn increment_breaker(
        &mut self,
        key: &str,
        success_delta: i64,
        failure_delta: i64,
        window: i64,
        now: i64,
    ) -> (r: Result<BreakerInterface, StoreError>)
        requires
            old(self).wf(),
        ensures
            bk_step(
                *old(self),
                *final(self),
                key@,
                success_delta,
                failure_delta,
                window,
                now,
                r,
            ),
    {
        proof {
            lemma_bk_keys_distinct(key@);
        }
        let gen_key = String::from_str("bk:g:").concat(key);
        let success_key = String::from_str("bk:s:").concat(key);
        let failure_key = String::from_str("bk:f:").concat(key);
        let consec_success_key = String::from_str("bk:cs:").concat(key);
        let consec_failure_key = String::from_str("bk:cf:").concat(key);

        let exp_wide: i128 = now as i128 + window as i128;
        if exp_wide < i64::MIN as i128 || exp_wide >= i64::MAX as i128 {
            return Err(StoreError::Overflow);
        }
        let exp: i64 = now + window;
        let exp1: i64 = exp + 1;
        match self.check_counter(gen_key.as_str(), 1, now) {
            Some(e) => {
                return Err(e);
            },
            None => {},
        }
        if success_delta > 0 {
            match self.check_counter(success_key.as_str(), success_delta, now) {
                Some(e) => {
                    return Err(e);
                },
                None => {},
            }
            match self.check_counter(consec_success_key.as_str(), success_delta, now) {
                Some(e) => {
                    return Err(e);
                },
                None => {},
            }
        } else {
            match self.check_counter(failure_key.as_str(), failure_delta, now) {
                Some(e) => {
                    return Err(e);
                },
                None => {},
            }
            match self.check_counter(consec_failure_key.as_str(), failure_delta, now) {
                Some(e) => {
                    return Err(e);
                },
                None => {},
            }
        }

        let generation = match self.incr_by(gen_key.as_str(), 1, now) {
            Ok(v) => v,
            Err(e) => {
                return Err(e);
            },
        };
        let successes: i64;
        let failures: i64;
        let consecutive_successes: i64;
        let consecutive_failures: i64;
        if success_delta > 0 {
            successes = match self.incr_by(success_key.as_str(), success_delta, now) {
                Ok(v) => v,
                Err(e) => {
                    return Err(e);
                },
            };
            failures = match self.num_at(failure_key.as_str(), now) {
                Some(v) => v,
                None => 0,
            };
            consecutive_successes = match self.incr_by(
                consec_success_key.as_str(),
                success_delta,
                now,
            ) {
                Ok(v) => v,
                Err(e) => {
                    return Err(e);
                },
            };
            self.set_value(consec_failure_key.as_str(), StoredValue::Int(0));
            consecutive_failures = 0;
        } else {
            successes = match self.num_at(success_key.as_str(), now) {
                Some(v) => v,
                None => 0,
            };
            failures = match self.incr_by(failure_key.as_str(), failure_delta, now) {
                Ok(v) => v,
                Err(e) => {
                    return Err(e);
                },
            };
            self.set_value(consec_success_key.as_str(), StoredValue::Int(0));
            consecutive_successes = 0;
            consecutive_failures = match self.incr_by(
                consec_failure_key.as_str(),
                failure_delta,
                now,
            ) {
                Ok(v) => v,
                Err(e) => {
                    return Err(e);
                },
            };
        }
        let _r1 = self.set_expiry(gen_key.as_str(), exp1, now);
        let _r2 = self.set_expiry(success_key.as_str(), exp1, now);
        let _r3 = self.set_expiry(failure_key.as_str(), exp1, now);
        let _r4 = self.set_expiry(consec_success_key.as_str(), exp1, now);
        let _r5 = self.set_expiry(consec_failure_key.as_str(), exp1, now);
        Ok(
            BreakerInterface {
                generation,
                successes,
                failures,
                consecutive_successes,
                consecutive_failures,
                expiration: exp,
            },
        )
    }

    /// Answers why an increment on the counter would fail, or nothing when
    /// it would not.
    fn check_counter(&self, key: &str, delta: i64, now: i64) -> (r: Option<StoreError>)
        requires
            self.wf(),
        ensures
            r is None <==> self.spec_ctr_ok(key@, delta, now),
    {
        match self.get_value(key, now) {
            Some(StoredValue::Bytes(_)) => Some(StoreError::NotInteger),
            Some(StoredValue::Int(v)) => {
                let sum_wide: i128 = v as i128 + delta as i128;
                if sum_wide > i64::MAX as i128 || sum_wide < i64::MIN as i128 {
                    Some(StoreError::Overflow)
                } else {
                    None
                }
            },
            None => None,
        }
    }

    /// Reads a circuit breaker without touching it: nothing when no
    /// generation is recorded, else the counters, absent ones reading as
    /// zero, and the moment the success key lapses, less one second, with
    /// the store's codes for a missing key or one without a lapse.
    pub fn check_breaker(&self, key: &str, now: i64) -> (r: Option<BreakerInterface>)
        requires
            self.wf(),
        ensures
            self.spec_num(bk_gen_key(key@), now) is None ==> r is None,
            match self.spec_num(bk_gen_key(key@), now) {
                Some(g) => r == Some(
                    BreakerInterface {
                        generation: g,
                        successes: self.spec_num_or_zero(bk_success_key(key@), now),
                        failures: self.spec_num_or_zero(bk_failure_key(key@), now),
                        consecutive_successes: self.spec_num_or_zero(
                            bk_consec_success_key(key@),
                            now,
                        ),
                        consecutive_failures: self.spec_num_or_zero(
                            bk_consec_failure_key(key@),
                            now,
                        ),
                        expiration: spec_expiretime(*self, bk_success_key(key@), now),
                    },
                ),
                None => r is None,
            },
    {
        let gen_key = String::from_str("bk:g:").concat(key);
        let success_key = String::from_str("bk:s:").concat(key);
        let failure_key = String::from_str("bk:f:").concat(key);
        let consec_success_key = String::from_str("bk:cs:").concat(key);
        let consec_failure_key = String::from_str("bk:cf:").concat(key);
        let generation = match self.num_at(gen_key.as_str(), now) {
            Some(g) => g,
            None => {
                return None;
            },
        };
        let successes = match self.num_at(success_key.as_str(), now) {
            Some(v) => v,
            None => 0,
        };
        let failures = match self.num_at(failure_key.as_str(), now) {
            Some(v) => v,
            None => 0,
        };
        let consecutive_successes = match self.num_at(consec_success_key.as_str(), now) {
            Some(v) => v,
            None => 0,
        };
        let consecutive_failures = match self.num_at(consec_failure_key.as_str(), now) {
            Some(v) => v,
            None => 0,
        };
        let expiration = self.expiretime_less_one(success_key.as_str(), now);
        Some(
            BreakerInterface {
                generation,
                successes,
                failures,
                consecutive_successes,
                consecutive_failures,
                expiration,
            },
        )
    }

    /// Reads when a key lapses, less one second: the store reports `-1`
    /// for a key without a lapse and `-2` for an absent one, so those read
    /// as `-2` and `-3`.
    fn expiretime_less_one(&self, key: &str, now: i64) -> (r: i64)
        requires
            self.wf(),
        ensures
            r == spec_expiretime(*self, key@, now),
    {
        match self.get_expiry(key, now) {
            ExpiryReading::At(t) => if t > i64::MIN {
                t - 1
            } else {
                t
            },
            ExpiryReading::Never => -2,
            ExpiryReading::Gone => -3,
        }
    }
}

/// What the breaker check reports as the window end for a key: its lapse
/// moment less one second, saturating, with `-2` for a key that never
/// lapses and `-3` for an absent one.
pub open spec fn spec_expiretime(pre: StoreModel, k: Seq<char>, now: i64) -> i64 {
    match pre.spec_cell(k) {
        Some((_, exp)) => if expiry_live(exp, now) {
            match exp {
                Some(t) => if t > i64::MIN {
                    (t - 1) as i64
                } else {
                    t
                },
                None => (-2) as i64,
            }
        } else {
            (-3) as i64
        },
        None => (-3) as i64,
    }
}

/// How a key's lapse reads at a moment.
enum ExpiryReading {
    /// Alive, lapsing at the given moment.
    At(i64),
    /// Alive with no lapse set.
    Never,
    /// Absent or already lapsed.
    Gone,
}

impl StoreModel {
    /// Reads a key's lapse.
    fn get_expiry(&self, key: &str, now: i64) -> (r: ExpiryReading)
        requires
            self.wf(),
        ensures
            match r {
                ExpiryReading::At(t) => self.spec_cell(key@) is Some && self.spec_cell(
                    key@,
                )->Some_0.1 == Some(t) && now < t,
                ExpiryReading::Never => self.spec_cell(key@) is Some && self.spec_cell(
                    key@,
                )->Some_0.1 is None,
                ExpiryReading::Gone => self.spec_value(key@, now) is None,
            },
    {
        let idx = self.find(key);
        match idx {
            Some(i) => {
                match self.entries[i].expire_at {
                    None => ExpiryReading::Never,
                    Some(t) => if now < t {
                        ExpiryReading::At(t)
                    } else {
                        ExpiryReading::Gone
                    },
                }
            },
            None => ExpiryReading::Gone,
        }
    }
}

} // verus!
