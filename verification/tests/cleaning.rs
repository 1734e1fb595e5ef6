use yuno_core::cleaner::{valid_clean_params, CleanConfig};

#[test]
fn new_config_starts_at_full_cycle() {
    let cfg = CleanConfig::new(1, "general".to_string(), 1, 5);
    assert_eq!(cfg.time_between_cleans, 1);
    assert_eq!(cfg.warning_time, 5);
    assert_eq!(cfg.remaining_time, 60);
}

#[test]
fn hourly_cycle_warns_once_then_purges_and_resets() {
    // One hour between cleans, warning five minutes before.
    let mut cfg = CleanConfig::new(9, "general".to_string(), 1, 5);
    let mut warns = 0;
    let mut purges = 0;

    for _ in 0..55 {
        let fx = cfg.tick();
        if fx.warn {
            warns += 1;
        }
        if fx.purge {
            purges += 1;
        }
    }
    assert_eq!(cfg.remaining_time, 5);
    assert_eq!(warns, 1);
    assert_eq!(purges, 0);

    for _ in 0..5 {
        let fx = cfg.tick();
        if fx.warn {
            warns += 1;
        }
        if fx.purge {
            purges += 1;
        }
    }
    assert_eq!(warns, 1);
    assert_eq!(purges, 1);
    assert_eq!(cfg.remaining_time, 60);
}

#[test]
fn warning_fires_on_the_exact_tick() {
    let mut cfg = CleanConfig::new(9, "general".to_string(), 2, 30);
    // Cycle is 120 minutes; the warning must fire on tick 90 alone.
    for minute in 1..=120 {
        let fx = cfg.tick();
        assert_eq!(fx.warn, minute == 90, "minute {}", minute);
        assert_eq!(fx.purge, minute == 120, "minute {}", minute);
    }
    assert_eq!(cfg.remaining_time, 120);
}

#[test]
fn warning_at_or_past_cycle_never_fires() {
    // A warning time not strictly inside the cycle can never be met by the
    // countdown; such a request is rejected at configuration time.
    assert!(!valid_clean_params(1, 60));
    assert!(!valid_clean_params(1, 61));

    // Forced into the store anyway, the countdown simply never warns.
    let mut cfg = CleanConfig {
        guild_id: 9,
        channel_name: "general".to_string(),
        time_between_cleans: 1,
        warning_time: 60,
        remaining_time: 60,
    };
    let mut warns = 0;
    for _ in 0..60 {
        if cfg.tick().warn {
            warns += 1;
        }
    }
    assert_eq!(warns, 0);
    assert_eq!(cfg.remaining_time, 60);
}

#[test]
fn parameter_validation() {
    assert!(valid_clean_params(1, 5));
    assert!(valid_clean_params(2, 119));
    assert!(!valid_clean_params(0, 5));
    assert!(!valid_clean_params(-1, 5));
    assert!(!valid_clean_params(1, 0));
    assert!(!valid_clean_params(2, 120));
}

#[test]
fn delay_postpones_by_five_minutes() {
    let mut cfg = CleanConfig::new(9, "general".to_string(), 1, 5);
    cfg.tick();
    assert_eq!(cfg.remaining_time, 59);
    cfg.delay();
    assert_eq!(cfg.remaining_time, 64);
    assert_eq!(cfg.time_between_cleans, 1);
    assert_eq!(cfg.warning_time, 5);
}
