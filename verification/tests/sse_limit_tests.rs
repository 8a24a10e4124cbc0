use std::time::Instant;

use lightarchitects_webshell::sse_rate_limit::{
    new_sse_rate_limiter, MAX_SSE_PER_WINDOW, SSE_WINDOW_NANOS,
};

fn ip(a: u8) -> u128 {
    0x7f00_0000 + a as u128
}

#[test]
fn counter_increments_and_rejects_at_limit() {
    let mut limiter = new_sse_rate_limiter();
    let addr = ip(1);
    for _ in 0..MAX_SSE_PER_WINDOW {
        assert!(limiter.attempt(addr), "should allow up to limit");
    }
    assert!(!limiter.attempt(addr), "should reject at limit+1");
}

#[test]
fn window_reset_clears_counter() {
    let mut limiter = new_sse_rate_limiter();
    let addr = ip(2);
    for _ in 0..MAX_SSE_PER_WINDOW {
        limiter.attempt(addr);
    }
    assert!(!limiter.attempt(addr));
    let now = Instant::now();
    assert!(limiter.attempt_at(addr, now, SSE_WINDOW_NANOS), "first attempt after window reset must pass");
    assert_eq!(limiter.entry(addr), Some((1, now)));
}

#[test]
fn two_ips_tracked_independently() {
    let mut limiter = new_sse_rate_limiter();
    let a = ip(3);
    let b = ip(4);
    for _ in 0..MAX_SSE_PER_WINDOW {
        limiter.attempt(a);
    }
    assert!(!limiter.attempt(a), "ip-a exhausted");
    assert!(limiter.attempt(b), "ip-b independent of ip-a");
}

#[test]
fn new_sse_rate_limiter_is_empty() {
    let limiter = new_sse_rate_limiter();
    assert!(limiter.is_empty());
    assert_eq!(limiter.len(), 0);
}

#[test]
fn attempt_within_window_counts_up() {
    let mut limiter = new_sse_rate_limiter();
    let now = Instant::now();
    assert!(limiter.attempt_at(ip(9), now, 0));
    assert!(limiter.attempt_at(ip(9), now, SSE_WINDOW_NANOS - 1));
    assert_eq!(limiter.entry(ip(9)), Some((2, now)));
    assert_eq!(limiter.entry(ip(8)), None);
}
