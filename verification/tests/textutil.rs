use yuno_core::config::{default_database_path, default_prefix, default_spam_max_warnings, BotConfig};
use yuno_core::records::{action_total, VoiceXpConfig};
use yuno_core::text::{channel_name_matches, contains_str, parse_u64, starts_with_str, u64_to_dec};
use yuno_core::utils::{format_duration, is_url};

#[test]
fn decimal_rendering() {
    assert_eq!(u64_to_dec(0), "0");
    assert_eq!(u64_to_dec(7), "7");
    assert_eq!(u64_to_dec(10), "10");
    assert_eq!(u64_to_dec(305), "305");
    assert_eq!(u64_to_dec(u64::MAX), "18446744073709551615");
}

#[test]
fn duration_formatting() {
    assert_eq!(format_duration(0), "0s");
    assert_eq!(format_duration(5), "5s");
    assert_eq!(format_duration(59), "59s");
    assert_eq!(format_duration(60), "1m 0s");
    assert_eq!(format_duration(61), "1m 1s");
    assert_eq!(format_duration(3600), "1h 0m 0s");
    assert_eq!(format_duration(7261), "2h 1m 1s");
}

#[test]
fn duration_formatting_negative() {
    // A negative duration keeps only its seconds remainder, as the
    // truncating arithmetic leaves it.
    assert_eq!(format_duration(-5), "-5s");
    assert_eq!(format_duration(-60), "0s");
    assert_eq!(format_duration(-61), "-1s");
    assert_eq!(format_duration(-3661), "-1s");
}

#[test]
fn url_detection() {
    assert!(is_url("http://example.com"));
    assert!(is_url("https://example.com/page?x=1"));
    assert!(is_url("https://"));
    assert!(!is_url("ftp://example.com"));
    assert!(!is_url("example.com"));
    assert!(!is_url(""));
    assert!(!is_url("http:/example.com"));
}

#[test]
fn substring_search() {
    assert!(contains_str("hello @everyone!", "@everyone"));
    assert!(contains_str("abc", ""));
    assert!(!contains_str("", "a"));
    assert!(!contains_str("hello @every one", "@everyone"));
    assert!(contains_str("@here", "@here"));
}

#[test]
fn prefix_search() {
    assert!(starts_with_str("http://x", "http://"));
    assert!(!starts_with_str("xhttp://", "http://"));
    assert!(starts_with_str("abc", ""));
}

#[test]
fn case_insensitive_channel_names() {
    assert!(channel_name_matches("General", "gENERAL"));
    assert!(channel_name_matches("general", "general"));
    assert!(!channel_name_matches("general", "chat"));
    assert!(channel_name_matches("CAFÉ", "café"));
}

#[test]
fn unsigned_decimal_parsing() {
    assert_eq!(parse_u64("0"), Some(0));
    assert_eq!(parse_u64("123"), Some(123));
    assert_eq!(parse_u64("+42"), Some(42));
    assert_eq!(parse_u64("007"), Some(7));
    assert_eq!(parse_u64("18446744073709551615"), Some(u64::MAX));
    assert_eq!(parse_u64("18446744073709551616"), None);
    assert_eq!(parse_u64(""), None);
    assert_eq!(parse_u64("+"), None);
    assert_eq!(parse_u64("12a"), None);
    assert_eq!(parse_u64("-1"), None);
    assert_eq!(parse_u64(" 1"), None);
}

#[test]
fn config_defaults() {
    assert_eq!(default_prefix(), ".");
    assert_eq!(default_database_path(), "yuno.db");
    assert_eq!(default_spam_max_warnings(), 3);
    let cfg = BotConfig::default();
    assert_eq!(cfg.default_prefix, ".");
    assert_eq!(cfg.discord_token, "");
    assert_eq!(cfg.database_path, "yuno.db");
    assert!(cfg.master_users.is_empty());
    assert_eq!(cfg.spam_max_warnings, 3);
    assert!(cfg.dm_message.is_none());
}

#[test]
fn master_user_lookup() {
    let mut cfg = BotConfig::default();
    cfg.master_users = vec!["123".to_string(), "456".to_string()];
    assert!(cfg.is_master_user("123"));
    assert!(cfg.is_master_user("456"));
    assert!(!cfg.is_master_user("789"));
    assert!(!cfg.is_master_user(""));
}

#[test]
fn voice_config_defaults() {
    let c = VoiceXpConfig::default_for(77);
    assert_eq!(c.guild_id, 77);
    assert!(!c.enabled);
    assert_eq!(c.xp_per_minute, 5);
    assert_eq!(c.min_users, 2);
    assert!(c.ignore_afk);
}

#[test]
fn action_breakdown_lookup() {
    let counts = vec![("ban".to_string(), 3i64), ("kick".to_string(), 1i64)];
    assert_eq!(action_total(&counts, "ban"), 3);
    assert_eq!(action_total(&counts, "kick"), 1);
    assert_eq!(action_total(&counts, "timeout"), 0);
}
