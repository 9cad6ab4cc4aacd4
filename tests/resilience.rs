use pixel_change_check::resilience::{NetworkResilience, ResilienceConfig, RetryAction};

fn run(resilience: &mut NetworkResilience, outcomes: &[bool]) -> (RetryAction, usize, Vec<u64>) {
    let mut state = resilience.start_retry();
    let mut delays = Vec::new();
    for (i, ok) in outcomes.iter().enumerate() {
        match resilience.on_attempt(&mut state, *ok, 1000 + i as u64) {
            RetryAction::RetryAfter(d) => delays.push(d),
            action => return (action, i + 1, delays),
        }
    }
    panic!("outcomes ran out")
}

#[test]
fn test_network_resilience() {
    let config = ResilienceConfig {
        max_retries: 3,
        retry_delay_ms: 100,
        max_backoff_ms: 1000,
        jitter_buffer_size: 5,
        error_correction_enabled: true,
    };
    let mut resilience = NetworkResilience::new(config);
    let (action, fail_count, _) = run(&mut resilience, &[false, false, true]);
    assert_eq!(action, RetryAction::Done);
    assert_eq!(fail_count, 3);
}

#[test]
fn two_failures_then_success_resets_the_counter() {
    let mut resilience = NetworkResilience::new(ResilienceConfig::default());
    let (action, attempts, delays) = run(&mut resilience, &[false, false, true]);
    assert_eq!(action, RetryAction::Done);
    assert_eq!(attempts, 3);
    assert_eq!(delays, vec![100, 200]);
    let stats = resilience.get_stats();
    assert_eq!(stats.retry_count, 0);
    assert_eq!(stats.last_success, Some(1002));
    assert!(stats.is_healthy);
}

#[test]
fn always_failing_gives_up_after_three_attempts() {
    let mut resilience = NetworkResilience::new(ResilienceConfig::default());
    let (action, attempts, delays) = run(&mut resilience, &[false; 10]);
    assert_eq!(action, RetryAction::GiveUp);
    assert_eq!(attempts, 3);
    assert_eq!(delays, vec![100, 200]);
    assert!(!resilience.is_healthy());
    assert_eq!(resilience.get_stats().last_success, None);
}

#[test]
fn backoff_doubles_up_to_the_ceiling() {
    let config = ResilienceConfig { max_retries: 8, ..ResilienceConfig::default() };
    let mut resilience = NetworkResilience::new(config);
    let (action, attempts, delays) = run(&mut resilience, &[false; 10]);
    assert_eq!(action, RetryAction::GiveUp);
    assert_eq!(attempts, 8);
    assert_eq!(delays, vec![100, 200, 400, 800, 1600, 3200, 5000]);
}

#[test]
fn zero_retries_gives_up_after_one_attempt() {
    let config = ResilienceConfig { max_retries: 0, ..ResilienceConfig::default() };
    let mut resilience = NetworkResilience::new(config);
    let (action, attempts, delays) = run(&mut resilience, &[false; 3]);
    assert_eq!(action, RetryAction::GiveUp);
    assert_eq!(attempts, 1);
    assert!(delays.is_empty());
}

#[test]
fn health_monitoring_stops_after_max_retries_failed_checks() {
    let mut resilience = NetworkResilience::new(ResilienceConfig::default());
    assert!(resilience.on_health_check(false, 1));
    assert!(resilience.on_health_check(true, 2));
    assert_eq!(resilience.get_stats().retry_count, 0);
    assert_eq!(resilience.get_stats().last_success, Some(2));
    assert!(resilience.on_health_check(false, 3));
    assert!(resilience.on_health_check(false, 4));
    assert!(!resilience.on_health_check(false, 5));
    let stats = resilience.get_stats();
    assert_eq!(stats.retry_count, 3);
    assert!(!stats.is_healthy);
}

#[test]
fn default_config_values() {
    let c = ResilienceConfig::default();
    assert_eq!(c.max_retries, 3);
    assert_eq!(c.retry_delay_ms, 100);
    assert_eq!(c.max_backoff_ms, 5000);
    assert_eq!(c.jitter_buffer_size, 5);
    assert!(c.error_correction_enabled);
}

#[test]
fn the_first_delay_is_capped_by_the_ceiling() {
    let config = ResilienceConfig { retry_delay_ms: 200, max_backoff_ms: 100, ..ResilienceConfig::default() };
    let mut resilience = NetworkResilience::new(config);
    let (action, attempts, delays) = run(&mut resilience, &[false; 5]);
    assert_eq!(action, RetryAction::GiveUp);
    assert_eq!(attempts, 3);
    assert_eq!(delays, vec![100, 100]);
}
