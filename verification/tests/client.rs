use transcodarr::client::ReconnectPolicy;

#[test]
fn the_backoff_grows_and_is_capped() {
    let p = ReconnectPolicy::default();
    let boot = "boot-a";
    assert!(p.delay(0, boot) <= p.initial_ns);
    assert!(p.delay(3, boot) > p.delay(0, boot));
    for attempt in 0..40 {
        assert!(p.delay(attempt, boot) <= p.max_ns, "attempt {attempt}");
    }
}

/// A delay of zero would busy-loop against a server that is down.
#[test]
fn the_backoff_is_never_zero() {
    let p = ReconnectPolicy::default();
    for attempt in 0..40 {
        assert!(p.delay(attempt, "boot-a") > 0);
    }
}

/// A server restart disconnects every agent at once. Without jitter they
/// all come back in the same instant, repeatedly.
#[test]
fn two_agents_do_not_reconnect_in_lockstep() {
    let p = ReconnectPolicy::default();
    let differ = (0..8).any(|a| p.delay(a, "boot-a") != p.delay(a, "boot-b"));
    assert!(differ, "the jitter must depend on the agent");
}

/// A huge attempt count must not overflow into a tiny delay — that would
/// turn the longest outage into the busiest retry loop.
#[test]
fn an_extreme_attempt_count_stays_capped() {
    let p = ReconnectPolicy::default();
    assert!(p.delay(u32::MAX, "boot-a") <= p.max_ns);
    assert!(p.delay(u32::MAX, "boot-a") > 0);
}
