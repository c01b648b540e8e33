//! The cooldown tracker and lookup cache, exercised with explicit clocks.

use arisa::cache::LookupCache;
use arisa::command::{format_code_block, truncate_output, validate_input_size};
use arisa::config::Config;
use arisa::cooldown::CooldownManager;
use arisa::error::BotError;

#[test]
fn throttle_scenario_five_second_window() {
    let mut m = CooldownManager::new();
    assert!(m.check_cooldown("hash", 42, 5, 0).is_ok());
    match m.check_cooldown("hash", 42, 5, 2) {
        Err(BotError::Cooldown(remaining)) => assert_eq!(remaining, 3),
        _ => panic!("expected a throttle with three seconds left"),
    }
    assert!(m.check_cooldown("hash", 42, 5, 6).is_ok());
}

#[test]
fn throttled_attempt_does_not_extend_window() {
    let mut m = CooldownManager::new();
    assert!(m.check_cooldown("hash", 1, 10, 100).is_ok());
    assert!(m.check_cooldown("hash", 1, 10, 105).is_err());
    // had the refusal at 105 reset the stamp, 110 would still be throttled
    assert!(m.check_cooldown("hash", 1, 10, 110).is_ok());
}

#[test]
fn distinct_keys_do_not_throttle_each_other() {
    let mut m = CooldownManager::new();
    assert!(m.check_cooldown("hash", 1, 60, 0).is_ok());
    assert!(m.check_cooldown("hash", 2, 60, 0).is_ok());
    assert!(m.check_cooldown("rot", 1, 60, 0).is_ok());
    assert!(m.check_cooldown("hash", 1, 60, 1).is_err());
    assert!(m.check_cooldown("hash", 2, 60, 2).is_err());
    assert!(m.check_cooldown("rot", 1, 60, 3).is_err());
}

#[test]
fn zero_window_never_throttles() {
    let mut m = CooldownManager::new();
    for t in 0..5u64 {
        assert!(m.check_cooldown("uuid", 7, 0, t).is_ok());
    }
    assert!(m.check_cooldown("uuid", 7, 0, 0).is_ok());
}

#[test]
fn cleanup_removes_old_entries_and_keeps_young_ones() {
    let mut m = CooldownManager::new();
    assert!(m.check_cooldown("old", 1, 5, 0).is_ok());
    assert!(m.check_cooldown("young", 1, 5, 950).is_ok());
    m.cleanup_expired(100, 1000);
    // the old entry is gone: a call inside its window succeeds again
    assert!(m.check_cooldown("old", 1, 1000, 1001).is_ok());
    // the young entry survived: a call inside its window is refused
    assert!(m.check_cooldown("young", 1, 1000, 1001).is_err());
}

#[test]
fn cleanup_of_empty_store_is_a_no_op() {
    let mut m = CooldownManager::new();
    m.cleanup_expired(3600, 0);
    assert!(m.check_cooldown("hash", 1, 5, 0).is_ok());
}

#[test]
fn cache_cold_key_fetches_once_then_hits() {
    let mut cache: LookupCache<String> = LookupCache::new();
    let mut calls = 0u32;
    let r = cache.get_or_fetch("CVE-2024-0001", 3600, 0, || {
        calls += 1;
        Ok::<String, BotError>("V1".to_string())
    });
    assert_eq!(r.unwrap(), "V1");
    assert_eq!(calls, 1);
    let r2 = cache.get_or_fetch("CVE-2024-0001", 3600, 10, || {
        calls += 1;
        Ok::<String, BotError>("V2".to_string())
    });
    assert_eq!(r2.unwrap(), "V1");
    assert_eq!(calls, 1);
}

#[test]
fn cache_expiry_refetches_and_supersedes() {
    let mut cache: LookupCache<String> = LookupCache::new();
    let r = cache.get_or_fetch("CVE-2024-0001", 3600, 0, || {
        Ok::<String, BotError>("V1".to_string())
    });
    assert_eq!(r.unwrap(), "V1");
    let mut calls = 0u32;
    let r2 = cache.get_or_fetch("CVE-2024-0001", 3600, 3601, || {
        calls += 1;
        Ok::<String, BotError>("V2".to_string())
    });
    assert_eq!(r2.unwrap(), "V2");
    assert_eq!(calls, 1);
    let r3 = cache.get_or_fetch("CVE-2024-0001", 3600, 3700, || {
        calls += 1;
        Ok::<String, BotError>("V3".to_string())
    });
    assert_eq!(r3.unwrap(), "V2");
    assert_eq!(calls, 1);
}

#[test]
fn cache_failed_fetch_stores_nothing_and_retries() {
    let mut cache: LookupCache<String> = LookupCache::new();
    let mut calls = 0u32;
    let r = cache.get_or_fetch("key", 3600, 0, || {
        calls += 1;
        Err::<String, BotError>(BotError::GitHub("down".to_string()))
    });
    assert!(r.is_err());
    assert_eq!(calls, 1);
    let r2 = cache.get_or_fetch("key", 3600, 1, || {
        calls += 1;
        Ok::<String, BotError>("up".to_string())
    });
    assert_eq!(r2.unwrap(), "up");
    assert_eq!(calls, 2);
}

#[test]
fn cache_keys_are_case_normalized() {
    let mut cache: LookupCache<u32> = LookupCache::new();
    let r = cache.get_or_fetch("AALOAD", 3600, 0, || Ok::<u32, BotError>(50));
    assert_eq!(r.unwrap(), 50);
    let mut calls = 0u32;
    let r2 = cache.get_or_fetch("aaload", 3600, 1, || {
        calls += 1;
        Ok::<u32, BotError>(99)
    });
    assert_eq!(r2.unwrap(), 50);
    assert_eq!(calls, 0);
}

#[test]
fn cache_sweeps_expired_entries_on_store() {
    let mut cache: LookupCache<u32> = LookupCache::new();
    assert!(cache.get_or_fetch("a", 10, 0, || Ok::<u32, BotError>(1)).is_ok());
    assert!(cache.get_or_fetch("b", 10, 100, || Ok::<u32, BotError>(2)).is_ok());
    // storing "b" at 100 swept "a" (age 100 >= 10): "a" must be refetched
    let mut calls = 0u32;
    let r = cache.get_or_fetch("a", 1000, 101, || {
        calls += 1;
        Ok::<u32, BotError>(3)
    });
    assert_eq!(r.unwrap(), 3);
    assert_eq!(calls, 1);
}

#[test]
fn default_config_limits_and_cooldowns() {
    let c = Config::default();
    assert_eq!(c.limits.max_input_size, 4096);
    assert_eq!(c.limits.max_output_size, 4000);
    assert_eq!(c.cooldowns.global_cooldown, 1);
    assert_eq!(c.cooldowns.per_user_cooldown, 3);
    assert_eq!(c.cooldowns.hash_cooldown, 5);
    assert_eq!(c.cooldowns.github_cooldown, 10);
    assert_eq!(c.cooldowns.color_cooldown, 2);
    assert_eq!(c.quotes.update_interval_minutes, (3, 5));
    assert!(!c.quotes.quotes.is_empty());
    assert_eq!(c.github.user_agent, "Arisa-Bot/1.0");
    assert!(c.discord.token.is_empty());
}

#[test]
fn input_size_validation_accepts_and_rejects() {
    let c = Config::default();
    assert!(validate_input_size("hello", &c).is_ok());
    let big = "x".repeat(4097);
    match validate_input_size(&big, &c) {
        Err(BotError::InputTooLarge(n)) => assert_eq!(n, 4097),
        _ => panic!("expected the size refusal"),
    }
    let exact = "x".repeat(4096);
    assert!(validate_input_size(&exact, &c).is_ok());
}

#[test]
fn output_truncation_cuts_and_marks() {
    let c = Config::default();
    let short = "short".to_string();
    assert_eq!(truncate_output(short.clone(), &c), short);
    let long = "y".repeat(4001);
    let cut = truncate_output(long, &c);
    assert_eq!(cut.chars().count(), 3980 + "...\n*Output truncated*".chars().count());
    assert!(cut.ends_with("...\n*Output truncated*"));
    assert!(cut.starts_with("yyy"));
}

#[test]
fn code_block_formatting() {
    assert_eq!(format_code_block("let x = 1;", Some("rust")), "```rust\nlet x = 1;\n```");
    assert_eq!(format_code_block("plain", None), "```\nplain\n```");
}

#[test]
fn error_messages_read_as_shown() {
    assert_eq!(BotError::Cooldown(3).message(), "Command on cooldown for 3 seconds");
    assert_eq!(BotError::InputTooLarge(5000).message(), "Input too large: 5000 characters");
    assert_eq!(
        BotError::InvalidFormat("bad".to_string()).message(),
        "Invalid format: bad"
    );
    assert_eq!(BotError::GitHub("404".to_string()).message(), "GitHub error: 404");
    assert_eq!(BotError::Color("what".to_string()).message(), "Color error: what");
    assert_eq!(BotError::Config("oops".to_string()).message(), "Configuration error: oops");
}

#[test]
fn cache_lookup_and_store_pair() {
    let mut cache: LookupCache<String> = LookupCache::new();
    assert!(cache.lookup("k", 3600, 0).is_none());
    cache.store("k", "v1".to_string(), 3600, 0);
    assert_eq!(cache.lookup("K", 3600, 10).unwrap(), "v1");
    assert!(cache.lookup("k", 3600, 3600).is_none());
    cache.store("k", "v2".to_string(), 3600, 4000);
    assert_eq!(cache.lookup("k", 3600, 4001).unwrap(), "v2");
}
