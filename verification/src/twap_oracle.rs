//! Time-weighted average price oracle for a token pair.
//!
//! The oracle's instance storage is modelled by `TwapOracle`: one optional
//! field per storage key. Every entry point is a method that reads and
//! updates this model; the ledger timestamp is passed in as `now`.
use vstd::prelude::*;
use crate::address::Addr;
use crate::decimal_norm::trunc_div;

verus! {

/// Errors returned by the oracle.
#[derive(Clone, Copy, Debug, PartialEq, Eq, Structural)]
pub enum Error {
    AlreadyInitialized,
    NotInitialized,
    InvalidPrice,
    InsufficientTimeElapsed,
    StalePrice,
}

/// The TWAP accumulator, kept in a single storage entry.
#[derive(Clone, Copy, Debug, PartialEq, Eq, Structural)]
pub struct TwapStorage {
    pub cumulative_price: i128,
    pub total_time: u64,
    pub last_update_timestamp: u64,
    pub last_price: i128,
}

impl TwapStorage {
    /// The all-zero accumulator.
    pub fn zero() -> (r: Self)
        ensures
            r == zero_state(),
    {
        TwapStorage { cumulative_price: 0, total_time: 0, last_update_timestamp: 0, last_price: 0 }
    }
}

impl Default for TwapStorage {
    /// The all-zero accumulator of a fresh oracle.
    fn default() -> (r: Self)
        ensures
            r == zero_state(),
    {
        TwapStorage::zero()
    }
}

pub open spec fn zero_state() -> TwapStorage {
    TwapStorage { cumulative_price: 0, total_time: 0, last_update_timestamp: 0, last_price: 0 }
}

/// The oracle's instance storage, one field per key.
pub struct TwapOracle {
    pub token_a: Option<Addr>,
    pub token_b: Option<Addr>,
    pub min_update_interval_seconds: Option<u64>,
    pub max_price_age_seconds: Option<u64>,
    pub state: Option<TwapStorage>,
}

/// The accumulator as read, all zeros when absent.
pub open spec fn state_of(o: &TwapOracle) -> TwapStorage {
    match o.state {
        Some(s) => s,
        None => zero_state(),
    }
}

pub open spec fn is_initialized(o: &TwapOracle) -> bool {
    o.token_a is Some
}

pub open spec fn min_interval_of(o: &TwapOracle) -> u64 {
    match o.min_update_interval_seconds {
        Some(m) => m,
        None => 0,
    }
}

pub open spec fn max_age_of(o: &TwapOracle) -> u64 {
    match o.max_price_age_seconds {
        Some(m) => m,
        None => 0,
    }
}

/// Seconds since the last update that the next update at `now` accounts for.
pub open spec fn elapsed_since(s: TwapStorage, now: u64) -> int {
    if s.last_update_timestamp == 0 {
        0
    } else {
        now - s.last_update_timestamp
    }
}

/// The accumulator after a price update at `now`.
pub open spec fn updated_state(s: TwapStorage, now: u64, price: i128) -> TwapStorage {
    let e = elapsed_since(s, now);
    TwapStorage {
        cumulative_price: (s.cumulative_price + s.last_price * e) as i128,
        total_time: (s.total_time + e) as u64,
        last_update_timestamp: now,
        last_price: price,
    }
}

/// Whether an update at `now` can be applied without leaving the integer
/// ranges (the ledger clock never runs backwards).
pub open spec fn update_fits(s: TwapStorage, now: u64) -> bool {
    let e = elapsed_since(s, now);
    &&& e >= 0
    &&& i128::MIN <= s.last_price * e <= i128::MAX
    &&& i128::MIN <= s.cumulative_price + s.last_price * e <= i128::MAX
    &&& s.total_time + e <= u64::MAX
}

/// The outcome of `update_price`.
pub open spec fn update_result(o: &TwapOracle, now: u64, price: i128) -> Result<(), Error> {
    if !is_initialized(o) {
        Err(Error::NotInitialized)
    } else if price <= 0 {
        Err(Error::InvalidPrice)
    } else if state_of(o).last_update_timestamp > 0 && now - state_of(o).last_update_timestamp
        < min_interval_of(o) {
        Err(Error::InsufficientTimeElapsed)
    } else {
        Ok(())
    }
}

/// The time-weighted average of an accumulator (0 before any time elapsed),
/// truncated toward zero.
pub open spec fn twap_of(s: TwapStorage) -> i128 {
    if s.total_time == 0 {
        0
    } else {
        trunc_div(s.cumulative_price as int, s.total_time as int) as i128
    }
}

/// Whether the feed is stale at `now`.
pub open spec fn stale_at(o: &TwapOracle, now: u64) -> bool {
    let max_age = max_age_of(o);
    let last = state_of(o).last_update_timestamp;
    if max_age == 0 {
        false
    } else if last == 0 {
        true
    } else {
        (if now >= last { now - last } else { 0 }) > max_age
    }
}

impl TwapOracle {
    /// An oracle whose storage holds nothing yet.
    pub fn new() -> (r: Self)
        ensures
            r.token_a is None,
            r.token_b is None,
            r.min_update_interval_seconds is None,
            r.max_price_age_seconds is None,
            r.state is None,
    {
        TwapOracle {
            token_a: None,
            token_b: None,
            min_update_interval_seconds: None,
            max_price_age_seconds: None,
            state: None,
        }
    }

    /// The accumulator, all zeros when not yet written.
    pub fn read_state(&self) -> (r: TwapStorage)
        ensures
            r == state_of(self),
    {
        match self.state {
            Some(s) => s,
            None => TwapStorage::zero(),
        }
    }

    /// Stores the token pair and update interval; staleness checks start
    /// disabled and the accumulator starts at zero. Fails with
    /// `AlreadyInitialized`, changing nothing, on a second call.
    pub fn initialize(&mut self, token_a: Addr, token_b: Addr, min_update_interval_seconds: u64) -> (r:
        Result<(), Error>)
        ensures
            is_initialized(old(self)) ==> r == Err::<(), Error>(Error::AlreadyInitialized)
                && final(self).token_a == old(self).token_a
                && final(self).token_b == old(self).token_b
                && final(self).min_update_interval_seconds == old(self).min_update_interval_seconds
                && final(self).max_price_age_seconds == old(self).max_price_age_seconds
                && final(self).state == old(self).state,
            !is_initialized(old(self)) ==> r is Ok
                && final(self).token_a == Some(token_a)
                && final(self).token_b == Some(token_b)
                && final(self).min_update_interval_seconds == Some(min_update_interval_seconds)
                && final(self).max_price_age_seconds == Some(0u64)
                && final(self).state == Some(zero_state()),
    {
        if self.token_a.is_some() {
            return Err(Error::AlreadyInitialized);
        }
        self.token_a = Some(token_a);
        self.token_b = Some(token_b);
        self.min_update_interval_seconds = Some(min_update_interval_seconds);
        self.max_price_age_seconds = Some(0);
        self.state = Some(TwapStorage::zero());
        Ok(())
    }

    /// Folds the last price over the time elapsed since the last update into
    /// the accumulator and records `current_price` as the new last price.
    ///
    /// Fails, changing nothing, with `NotInitialized`, `InvalidPrice` (for a
    /// price `<= 0`) or `InsufficientTimeElapsed` (when an earlier update was
    /// less than the minimum interval ago).
    pub fn update_price(&mut self, now: u64, current_price: i128) -> (r: Result<(), Error>)
        requires
            is_initialized(old(self)) && current_price > 0 ==> now >= state_of(
                old(self),
            ).last_update_timestamp,
            update_result(old(self), now, current_price) is Ok ==> update_fits(
                state_of(old(self)),
                now,
            ),
        ensures
            r == update_result(old(self), now, current_price),
            r is Ok ==> final(self).state == Some(
                updated_state(state_of(old(self)), now, current_price),
            ),
            r is Err ==> final(self).state == old(self).state,
            final(self).token_a == old(self).token_a,
            final(self).token_b == old(self).token_b,
            final(self).min_update_interval_seconds == old(self).min_update_interval_seconds,
            final(self).max_price_age_seconds == old(self).max_price_age_seconds,
    {
        if self.token_a.is_none() {
            return Err(Error::NotInitialized);
        }
        if current_price <= 0 {
            return Err(Error::InvalidPrice);
        }
        let mut state = self.read_state();
        let min_interval: u64 = match self.min_update_interval_seconds {
            Some(m) => m,
            None => 0,
        };
        if state.last_update_timestamp > 0 && now - state.last_update_timestamp < min_interval {
            return Err(Error::InsufficientTimeElapsed);
        }
        let elapsed: u64 = if state.last_update_timestamp == 0 {
            0
        } else {
            now - state.last_update_timestamp
        };
        state.cumulative_price = state.cumulative_price + state.last_price * (elapsed as i128);
        state.total_time = state.total_time + elapsed;
        state.last_update_timestamp = now;
        state.last_price = current_price;
        self.state = Some(state);
        Ok(())
    }

    /// The time-weighted average price so far (0 before any time elapsed).
    pub fn get_twap(&self) -> (r: i128)
        ensures
            r == twap_of(state_of(self)),
    {
        let state = self.read_state();
        if state.total_time == 0 {
            0
        } else {
            state.cumulative_price / (state.total_time as i128)
        }
    }

    /// Sets the maximum accepted age of the last update in seconds (0
    /// disables the staleness check).
    pub fn set_max_price_age(&mut self, max_age_seconds: u64) -> (r: Result<(), Error>)
        ensures
            !is_initialized(old(self)) ==> r == Err::<(), Error>(Error::NotInitialized)
                && final(self).max_price_age_seconds == old(self).max_price_age_seconds,
            is_initialized(old(self)) ==> r is Ok && final(self).max_price_age_seconds == Some(
                max_age_seconds,
            ),
            final(self).token_a == old(self).token_a,
            final(self).token_b == old(self).token_b,
            final(self).min_update_interval_seconds == old(self).min_update_interval_seconds,
            final(self).state == old(self).state,
    {
        if self.token_a.is_none() {
            return Err(Error::NotInitialized);
        }
        self.max_price_age_seconds = Some(max_age_seconds);
        Ok(())
    }

    /// The configured maximum price age (0 = disabled).
    pub fn get_max_price_age(&self) -> (r: u64)
        ensures
            r == max_age_of(self),
    {
        match self.max_price_age_seconds {
            Some(m) => m,
            None => 0,
        }
    }

    /// Whether the feed is stale at `now`: never while checks are disabled;
    /// always when no price was ever recorded; otherwise when the last update
    /// is more than the maximum age ago.
    pub fn is_price_stale(&self, now: u64) -> (r: bool)
        ensures
            r == stale_at(self, now),
    {
        let max_age = self.get_max_price_age();
        if max_age == 0 {
            return false;
        }
        let last_update = self.read_state().last_update_timestamp;
        if last_update == 0 {
            return true;
        }
        let elapsed = now.saturating_sub(last_update);
        elapsed > max_age
    }

    /// The token pair.
    pub fn get_tokens(&self) -> (r: (&Addr, &Addr))
        requires
            self.token_a is Some,
            self.token_b is Some,
        ensures
            r.0@ == self.token_a.unwrap()@,
            r.1@ == self.token_b.unwrap()@,
    {
        match (&self.token_a, &self.token_b) {
            (Some(a), Some(b)) => (a, b),
            _ => unreached(),
        }
    }

    /// The accumulator.
    pub fn get_state(&self) -> (r: TwapStorage)
        ensures
            r == state_of(self),
    {
        self.read_state()
    }

    /// The TWAP, or 0 while the feed is stale.
    pub fn latest_price(&self, now: u64) -> (r: i128)
        ensures
            r == (if stale_at(self, now) {
                0
            } else {
                twap_of(state_of(self))
            }),
    {
        if self.is_price_stale(now) {
            return 0;
        }
        self.get_twap()
    }
}

/// The TWAP is the accumulated price-time divided by the accumulated time,
/// truncated toward zero: with `T = total_time > 0` and `C =
/// cumulative_price`, `twap * T <= C < (twap + 1) * T` for `C >= 0` and
/// `(twap - 1) * T < C <= twap * T` for `C < 0`; before any time has
/// accumulated it is 0. The price of the still-open interval
/// (`last_price`) plays no part.
pub proof fn law_twap_is_truncated_average(s: TwapStorage, last_price: i128)
    ensures
        s.total_time == 0 ==> twap_of(s) == 0,
        s.total_time > 0 && s.cumulative_price >= 0 ==> twap_of(s) >= 0 && twap_of(s)
            * s.total_time <= s.cumulative_price < (twap_of(s) + 1) * s.total_time,
        s.total_time > 0 && s.cumulative_price < 0 ==> twap_of(s) <= 0 && (twap_of(s) - 1)
            * s.total_time < s.cumulative_price <= twap_of(s) * s.total_time,
        twap_of(s) == twap_of(TwapStorage { last_price, ..s }),
{
    if s.total_time > 0 {
        let t = s.total_time as int;
        let c = s.cumulative_price as int;
        if c >= 0 {
            let q = c / t;
            assert(q * t <= c < (q + 1) * t && 0 <= q <= c) by (nonlinear_arith)
                requires
                    t > 0,
                    c >= 0,
                    q == c / t,
            ;
        } else {
            let q = (-c) / t;
            assert(q * t <= -c < (q + 1) * t && 0 <= q <= -c) by (nonlinear_arith)
                requires
                    t > 0,
                    c < 0,
                    q == (-c) / t,
            ;
            assert((-q - 1) * t < c <= (-q) * t) by (nonlinear_arith)
                requires
                    q * t <= -c < (q + 1) * t,
            ;
        }
    }
}

/// A feed quoted at one price `p` averages to `p`: when every second in the
/// accumulator was at price `p`, an update at a later time (the open
/// interval still at `p`) leaves a TWAP of exactly `p`.
pub proof fn law_constant_price_twap(s: TwapStorage, now: u64, price: i128, p: i128)
    requires
        s.total_time > 0,
        s.cumulative_price == p * s.total_time,
        s.last_price == p,
        update_fits(s, now),
    ensures
        twap_of(s) == p,
        twap_of(updated_state(s, now, price)) == p,
{
    let t = s.total_time as int;
    let e = elapsed_since(s, now);
    assert(p * t + p * e == p * (t + e)) by (nonlinear_arith);
    law_twap_is_truncated_average(s, 0);
    law_twap_is_truncated_average(updated_state(s, now, price), 0);
    let u = updated_state(s, now, price);
    let q = twap_of(s) as int;
    let q2 = twap_of(u) as int;
    let t2 = u.total_time as int;
    if p >= 0 {
        assert(q == p) by (nonlinear_arith)
            requires
                t > 0,
                q * t <= p * t < (q + 1) * t,
        ;
        assert(q2 == p) by (nonlinear_arith)
            requires
                t2 > 0,
                q2 * t2 <= p * t2 < (q2 + 1) * t2,
        ;
    } else {
        assert(p * t < 0 && p * t2 < 0) by (nonlinear_arith)
            requires
                p < 0,
                t > 0,
                t2 > 0,
        ;
        assert(q == p) by (nonlinear_arith)
            requires
                t > 0,
                (q - 1) * t < p * t <= q * t,
        ;
        assert(q2 == p) by (nonlinear_arith)
            requires
                t2 > 0,
                (q2 - 1) * t2 < p * t2 <= q2 * t2,
        ;
    }
}

/// Two updates open and close the first interval: after a first quote `p`
/// at `t0 > 0` on an empty accumulator and a second quote at a later `t1`,
/// the TWAP is `p`, whatever the second price.
pub proof fn law_first_interval_twap(t0: u64, p: i128, t1: u64, q: i128)
    requires
        0 < t0 < t1,
        update_fits(updated_state(zero_state(), t0, p), t1),
    ensures
        twap_of(updated_state(updated_state(zero_state(), t0, p), t1, q)) == p,
{
    let s1 = updated_state(zero_state(), t0, p);
    assert(s1.total_time == 0 && s1.cumulative_price == 0 && s1.last_price == p);
    let s2 = updated_state(s1, t1, q);
    let e = (t1 - t0) as int;
    assert(s2.total_time == e && s2.cumulative_price == p * e);
    law_twap_is_truncated_average(s2, 0);
    let r = twap_of(s2) as int;
    if p >= 0 {
        assert(p * e >= 0) by (nonlinear_arith)
            requires
                p >= 0,
                e > 0,
        ;
        assert(r == p) by (nonlinear_arith)
            requires
                e > 0,
                r * e <= p * e < (r + 1) * e,
        ;
    } else {
        assert(p * e < 0) by (nonlinear_arith)
            requires
                p < 0,
                e > 0,
        ;
        assert(r == p) by (nonlinear_arith)
            requires
                e > 0,
                (r - 1) * e < p * e <= r * e,
        ;
    }
}

/// A successful update at a non-zero time revives the feed: right after it,
/// the feed is not stale and the latest price is the TWAP.
pub proof fn law_fresh_update_not_stale(o: &TwapOracle, after: &TwapOracle, now: u64, price: i128)
    requires
        now > 0,
        update_result(o, now, price) is Ok,
        after.state == Some(updated_state(state_of(o), now, price)),
        after.max_price_age_seconds == o.max_price_age_seconds,
    ensures
        !stale_at(after, now),
{
}

/// An empty feed is never trusted while the check is enabled.
pub proof fn law_empty_feed_is_stale(o: &TwapOracle, now: u64)
    requires
        max_age_of(o) > 0,
        state_of(o).last_update_timestamp == 0,
    ensures
        stale_at(o, now),
{
}

} // verus!
