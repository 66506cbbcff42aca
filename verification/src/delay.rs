//! When the next token refresh is due.
//!
//! A token is refreshed once 80% of its time to live has passed. The share is
//! taken in double precision, so a delay is stated through the rounding of
//! [`crate::double`]; the laws below say how close it comes to a plain 80%.

use crate::double::{
    is_nearest, law_nearest_is_unique, law_rounding_keeps_order, lemma_rounding_error, lemma_rounding_stays, lemma_spacing_multiple,
    nearest_double, round_to_double, spacing, MANTISSA_LIMIT,
};
use core::time::Duration;
use vstd::prelude::*;

verus! {

/// Refresh interval in seconds (25 minutes) where the server returns no usable
/// time to live and the configuration names no interval.
pub const DEFAULT_REFRESH_INTERVAL_SECS: u64 = 1500;

/// Least number of seconds between two refresh attempts, which keeps errors
/// from turning into tight loops.
pub const MIN_RETRY_DELAY_SECS: u64 = 30;

/// The share of a time to live after which a token is refreshed is the double
/// 0.80, which is this number over 2^53.
pub const REFRESH_SHARE_NUMERATOR: u128 = 7205759403792794;

/// Time to live, 3 * 2^49 seconds, from which on a rounded share can differ
/// from 80% cut to whole seconds.
pub const EXACT_SHARE_LIMIT: u64 = 0x6_0000_0000_0000;

/// 80% of `ttl` in double precision, cut to whole seconds.
///
/// `ttl` is first rounded to a double. The product with the share is then
/// rounded too; it is a whole number over 2^53, and dividing by a power of two
/// does not change how a number is rounded.
pub open spec fn refresh_share(ttl: nat) -> nat {
    nearest_double(nearest_double(ttl) * REFRESH_SHARE_NUMERATOR as nat) / MANTISSA_LIMIT as nat
}

/// The time to live that counts: what the server said, or the fallback where
/// it said 0.
pub open spec fn effective_ttl(expires_in: u64, fallback_interval: u64) -> u64 {
    if expires_in > 0 {
        expires_in
    } else {
        fallback_interval
    }
}

/// Seconds to wait before the next refresh.
pub open spec fn delay_secs(expires_in: u64, fallback_interval: u64) -> nat {
    let share = refresh_share(effective_ttl(expires_in, fallback_interval) as nat);
    if share < MIN_RETRY_DELAY_SECS {
        MIN_RETRY_DELAY_SECS as nat
    } else {
        share
    }
}

/// The duration of this many whole seconds: what `Duration::from_secs` returns.
pub uninterp spec fn whole_seconds(secs: u64) -> Duration;

/// `Duration::from_secs` never panics, and what it returns depends on the
/// number of seconds alone.
pub assume_specification[ Duration::from_secs ](secs: u64) -> (d: Duration)
    ensures
        d == whole_seconds(secs),
;

/// A rounded share stays close to 80%: the two differ by less than a second
/// and one part in 5 * 2^49 of the time to live.
pub proof fn law_share_close_to_80_percent(ttl: nat)
    ensures
        0x2_0000_0000_0000 * (5 * refresh_share(ttl)) <= 0x2_0000_0000_0000 * (4 * ttl) + ttl,
        0x2_0000_0000_0000 * (4 * ttl) <= 0x2_0000_0000_0000 * (5 * refresh_share(ttl) + 5) + ttl,
{
    let rounded = nearest_double(ttl);
    let product = rounded * REFRESH_SHARE_NUMERATOR as nat;
    lemma_rounding_error(ttl);
    lemma_rounding_error(product);
}

/// A share is what any two successive roundings to nearest give: `rounded` is
/// the double nearest to the time to live, and `product` the double nearest to
/// its product with the double 0.80, counted in units of 2^-53.
pub proof fn law_share_is_rounded_product(ttl: nat, rounded: nat, product: nat)
    requires
        is_nearest(ttl, rounded),
        is_nearest(rounded * 7205759403792794, product),
    ensures
        refresh_share(ttl) == product / 0x20_0000_0000_0000,
{
    law_nearest_is_unique(ttl, rounded);
    law_nearest_is_unique(rounded * 7205759403792794, product);
}

/// Below 3 * 2^49 seconds, about 53 million years, a rounded share is 80% cut
/// to whole seconds.
pub proof fn law_share_is_80_percent(ttl: nat)
    requires
        ttl < EXACT_SHARE_LIMIT,
    ensures
        refresh_share(ttl) == ttl * 4 / 5,
{
    let product = ttl * REFRESH_SHARE_NUMERATOR as nat;
    let limit = EXACT_SHARE_LIMIT as nat * REFRESH_SHARE_NUMERATOR as nat;
    let unit = spacing(product);
    let whole = ttl * 4 / 5;
    lemma_rounding_error(ttl);
    lemma_rounding_error(product);
    assert(spacing(limit) == 0x8_0000_0000_0000) by {
        reveal_with_fuel(spacing, 53);
    }
    let factor = lemma_spacing_multiple(product, limit);
    assert(unit <= 0x8_0000_0000_0000) by (nonlinear_arith)
        requires
            factor * unit == 0x8_0000_0000_0000,
            factor >= 1,
    ;
    assert((whole * 4 * factor) * unit == whole * MANTISSA_LIMIT) by (nonlinear_arith)
        requires
            factor * unit == 0x8_0000_0000_0000,
            MANTISSA_LIMIT == 4 * 0x8_0000_0000_0000,
    ;
    lemma_rounding_stays(product, whole * 4 * factor);
}

/// A longer time to live never gives a shorter wait.
pub proof fn law_delay_keeps_order(expires_in: u64, longer: u64, fallback_interval: u64)
    requires
        0 < expires_in <= longer,
    ensures
        delay_secs(expires_in, fallback_interval) <= delay_secs(longer, fallback_interval),
{
    law_rounding_keeps_order(expires_in as nat, longer as nat);
    law_rounding_keeps_order(
        nearest_double(expires_in as nat) * REFRESH_SHARE_NUMERATOR as nat,
        nearest_double(longer as nat) * REFRESH_SHARE_NUMERATOR as nat,
    );
}

/// With a time to live from the server, the wait is its share, and at least 30
/// seconds; with none, it is the same of the fallback interval. Below 3 * 2^49
/// seconds the share is a plain 80%, cut to whole seconds.
pub proof fn law_delay_is_share_of_ttl(expires_in: u64, fallback_interval: u64)
    ensures
        ({
            let secs = delay_secs(expires_in, fallback_interval);
            let ttl = if expires_in > 0 { expires_in as nat } else { fallback_interval as nat };
            &&& secs >= 30
            &&& secs == 30 || secs == refresh_share(ttl)
            &&& secs >= refresh_share(ttl)
            &&& ttl < 0x6_0000_0000_0000 ==> secs == if ttl * 4 / 5 < 30 {
                30
            } else {
                ttl * 4 / 5
            }
        }),
{
    if effective_ttl(expires_in, fallback_interval) < EXACT_SHARE_LIMIT {
        law_share_is_80_percent(effective_ttl(expires_in, fallback_interval) as nat);
    }
}

/// The fallback interval plays no part where the server returned a time to live.
pub proof fn law_fallback_only_without_ttl(expires_in: u64, fallback_interval: u64, other: u64)
    requires
        expires_in > 0,
    ensures
        delay_secs(expires_in, fallback_interval) == delay_secs(expires_in, other),
{
}

/// Where the server returned no time to live, the fallback interval counts as
/// one.
pub proof fn law_fallback_counts_as_ttl(fallback_interval: u64, other: u64)
    requires
        fallback_interval > 0,
    ensures
        delay_secs(0, fallback_interval) == delay_secs(fallback_interval, other),
{
}

/// A refresh is due before the token expires, for every time to live that
/// exceeds the least wait.
pub proof fn law_refresh_before_expiry(expires_in: u64, fallback_interval: u64)
    requires
        expires_in > MIN_RETRY_DELAY_SECS,
    ensures
        delay_secs(expires_in, fallback_interval) < expires_in,
{
    law_share_close_to_80_percent(expires_in as nat);
}

/// A first retry after a failed refresh still comes before the token expires,
/// for every time to live of which 20% are more than the least wait.
pub proof fn law_retry_before_expiry(expires_in: u64, fallback_interval: u64)
    requires
        expires_in > 5 * MIN_RETRY_DELAY_SECS,
    ensures
        delay_secs(expires_in, fallback_interval) + MIN_RETRY_DELAY_SECS < expires_in,
{
    law_share_close_to_80_percent(expires_in as nat);
}

/// A wait is never shorter than the least wait, and fits a count of seconds.
pub proof fn law_delay_bounds(expires_in: u64, fallback_interval: u64)
    ensures
        MIN_RETRY_DELAY_SECS <= delay_secs(expires_in, fallback_interval) <= u64::MAX,
{
    law_share_close_to_80_percent(effective_ttl(expires_in, fallback_interval) as nat);
}

/// Seconds to wait before the next refresh: 80% of the time to live that the
/// server returned, or of the fallback interval where it returned 0, and at
/// least [`MIN_RETRY_DELAY_SECS`].
pub fn next_refresh_delay_secs(expires_in: u64, fallback_interval: u64) -> (secs: u64)
    ensures
        secs == delay_secs(expires_in, fallback_interval),
        secs >= 30,
        // below 3 * 2^49 seconds, 80% cut to whole seconds
        0 < expires_in < 0x6_0000_0000_0000 ==> secs == if expires_in * 4 / 5 < 30 {
            30
        } else {
            expires_in * 4 / 5
        },
        expires_in == 0 && fallback_interval < 0x6_0000_0000_0000 ==> secs
            == if fallback_interval * 4 / 5 < 30 {
            30
        } else {
            fallback_interval * 4 / 5
        },
        // for any number of seconds, its share in double precision
        expires_in > 0 && refresh_share(expires_in as nat) > 30 ==> secs == refresh_share(
            expires_in as nat,
        ),
        expires_in == 0 && refresh_share(fallback_interval as nat) > 30 ==> secs == refresh_share(
            fallback_interval as nat,
        ),
{
    let ttl: u64 = if expires_in > 0 {
        expires_in
    } else {
        fallback_interval
    };
    proof {
        lemma_rounding_error(ttl as nat);
        law_delay_bounds(expires_in, fallback_interval);
        law_delay_is_share_of_ttl(expires_in, fallback_interval);
    }
    let rounded = round_to_double(ttl as u128);
    let share = round_to_double(rounded * REFRESH_SHARE_NUMERATOR) / MANTISSA_LIMIT;
    if share < MIN_RETRY_DELAY_SECS as u128 {
        MIN_RETRY_DELAY_SECS
    } else {
        share as u64
    }
}

/// How long to sleep before the next refresh; see [`next_refresh_delay_secs`].
pub fn next_refresh_delay(expires_in: u64, fallback_interval: u64) -> (delay: Duration)
    ensures
        delay == whole_seconds(delay_secs(expires_in, fallback_interval) as u64),
        0 < expires_in < 0x6_0000_0000_0000 ==> delay == whole_seconds(
            if expires_in * 4 / 5 < 30 {
                30
            } else {
                (expires_in * 4 / 5) as u64
            },
        ),
        expires_in == 0 && fallback_interval < 0x6_0000_0000_0000 ==> delay == whole_seconds(
            if fallback_interval * 4 / 5 < 30 {
                30
            } else {
                (fallback_interval * 4 / 5) as u64
            },
        ),
{
    Duration::from_secs(next_refresh_delay_secs(expires_in, fallback_interval))
}

} // verus!
