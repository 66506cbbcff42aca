use oauth_refresh::delay::{
    next_refresh_delay, next_refresh_delay_secs, DEFAULT_REFRESH_INTERVAL_SECS, EXACT_SHARE_LIMIT,
    MIN_RETRY_DELAY_SECS, REFRESH_SHARE_NUMERATOR,
};
use oauth_refresh::double::MANTISSA_LIMIT;
use std::time::Duration;

/// The delay as floating point arithmetic gives it.
fn float_delay(ttl: u64) -> u64 {
    ((ttl as f64 * 0.80) as u64).max(30)
}

#[test]
fn test_next_refresh_delay_uses_expires_in() {
    // 3600s * 0.80 = 2880s
    let delay = next_refresh_delay(3600, 1500);
    assert_eq!(delay, Duration::from_secs(2880));
}

#[test]
fn test_next_refresh_delay_falls_back_to_config() {
    // expires_in=0 -> use fallback 1500 * 0.80 = 1200s
    let delay = next_refresh_delay(0, 1500);
    assert_eq!(delay, Duration::from_secs(1200));
}

#[test]
fn test_next_refresh_delay_enforces_minimum() {
    // Very short TTL: 10s * 0.80 = 8s -> clamped to 30s minimum
    let delay = next_refresh_delay(10, 1500);
    assert_eq!(delay, Duration::from_secs(MIN_RETRY_DELAY_SECS));
}

#[test]
fn constants_have_their_values() {
    assert_eq!(DEFAULT_REFRESH_INTERVAL_SECS, 1500);
    assert_eq!(MIN_RETRY_DELAY_SECS, 30);
    assert_eq!(MANTISSA_LIMIT, 1u128 << 53);
    assert_eq!(EXACT_SHARE_LIMIT, 3u64 << 49);
    assert_eq!(REFRESH_SHARE_NUMERATOR as f64 / MANTISSA_LIMIT as f64, 0.80);
    assert_eq!((REFRESH_SHARE_NUMERATOR as f64) as u128, REFRESH_SHARE_NUMERATOR);
}

#[test]
fn delay_is_cut_to_whole_seconds() {
    assert_eq!(next_refresh_delay_secs(38, 1500), 30);
    assert_eq!(next_refresh_delay_secs(39, 1500), 31);
    assert_eq!(next_refresh_delay_secs(99, 1500), 79);
    assert_eq!(next_refresh_delay_secs(0, 0), 30);
}

#[test]
fn delay_agrees_with_floating_point_on_small_values() {
    for ttl in 1..200_000u64 {
        assert_eq!(next_refresh_delay_secs(ttl, 0), float_delay(ttl), "ttl {}", ttl);
        assert_eq!(next_refresh_delay_secs(0, ttl), float_delay(ttl), "ttl {}", ttl);
    }
}

#[test]
fn delay_agrees_with_floating_point_around_powers_of_two() {
    for exponent in 4..64u32 {
        let power = 1u64 << exponent;
        for numerator in 8..16u64 {
            let middle = power / 8 * numerator;
            for offset in 0..2000u64 {
                for ttl in [middle.wrapping_add(offset), middle.wrapping_sub(offset)] {
                    if ttl > 0 {
                        assert_eq!(next_refresh_delay_secs(ttl, 0), float_delay(ttl), "ttl {}", ttl);
                    }
                }
            }
        }
    }
    assert_eq!(next_refresh_delay_secs(u64::MAX, 0), float_delay(u64::MAX));
    assert_eq!(next_refresh_delay_secs(u64::MAX, 0), 14757395258967642112);
}

#[test]
fn delay_agrees_with_floating_point_on_scattered_values() {
    let mut value: u64 = 0x9E37_79B9_7F4A_7C15;
    for round in 0..400_000u32 {
        value = value.wrapping_mul(6364136223846793005).wrapping_add(1442695040888963407);
        let ttl = (value >> (round % 60)).max(1);
        assert_eq!(next_refresh_delay_secs(ttl, 0), float_delay(ttl), "ttl {}", ttl);
    }
}

#[test]
fn delay_is_80_percent_up_to_the_exact_limit() {
    for offset in 1..10_000u64 {
        let ttl = EXACT_SHARE_LIMIT - offset;
        assert_eq!(next_refresh_delay_secs(ttl, 0), ttl * 4 / 5);
    }
    let limit = EXACT_SHARE_LIMIT;
    assert_eq!(next_refresh_delay_secs(limit, 0), limit * 4 / 5 + 1);
}

#[test]
fn delay_stays_close_to_80_percent() {
    for ttl in [1u64 << 53, (1 << 60) + 12345, u64::MAX - 1, u64::MAX] {
        let share = next_refresh_delay_secs(ttl, 0) as i128;
        let difference = (5 * share - 4 * ttl as i128).abs();
        assert!(difference <= 5 + (ttl as i128 >> 49) + 1);
    }
}

#[test]
fn delay_keeps_order() {
    let mut previous: u64 = 0;
    for ttl in 1..5000u64 {
        let delay = next_refresh_delay_secs(ttl, 0);
        assert!(delay >= previous);
        previous = delay;
    }
}

#[test]
fn refresh_is_due_before_expiry() {
    for ttl in [31u64, 32, 37, 38, 3600, 1 << 53, u64::MAX] {
        assert!(next_refresh_delay_secs(ttl, 1500) < ttl);
    }
    assert_eq!(next_refresh_delay_secs(30, 1500), 30);
}

#[test]
fn retry_comes_before_expiry() {
    for ttl in [151u64, 152, 3600, 1 << 53, u64::MAX] {
        assert!(next_refresh_delay_secs(ttl, 1500) + MIN_RETRY_DELAY_SECS < ttl);
    }
    assert_eq!(next_refresh_delay_secs(150, 1500) + MIN_RETRY_DELAY_SECS, 150);
}
