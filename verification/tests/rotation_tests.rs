use grok2api::services::grok::rotation::{
    key_hash, sanitize_token, KeyUsage, RotationStateData, UsageEntry, RESET_INTERVAL_MS,
};

const DAY_START: i64 = 1_700_000_000_000;

fn one(token: &str) -> Vec<String> {
    vec![token.to_string()]
}

#[test]
fn key_hash_is_twelve_digits_of_sha1() {
    assert_eq!(key_hash("abc"), "a9993e364706");
    assert_eq!(key_hash(""), "da39a3ee5e6b");
    assert_eq!(key_hash("abc").len(), 12);
    assert_ne!(key_hash("abc"), key_hash("abd"));
}

#[test]
fn sanitize_token_trims_and_strips() {
    assert_eq!(sanitize_token("  sso=abc \n"), "abc");
    assert_eq!(sanitize_token("sso=sso=abc"), "abc");
    assert_eq!(sanitize_token("\u{3000}abc\u{a0}"), "abc");
    assert_eq!(sanitize_token(" sso= abc"), " abc");
    assert_eq!(sanitize_token("   "), "");
}

#[test]
fn score_is_remaining_times_recency() {
    let now = DAY_START;
    let fresh = KeyUsage::new_at(now);
    assert_eq!(fresh.score(10, now), 10 * 6_600_000);
    let used = KeyUsage { count: 1, last_used: now - 60_000, first_used: 0, failed: false, age_verified: 0 };
    assert_eq!(used.score(10, now), 9 * 660_000);
    let long_ago = KeyUsage { count: 3, last_used: now - 100_000_000, first_used: 0, failed: false, age_verified: 0 };
    assert_eq!(long_ago.score(10, now), 7 * 6_600_000);
    let exhausted = KeyUsage { count: 12, last_used: now - 1, first_used: 0, failed: false, age_verified: 0 };
    assert_eq!(exhausted.score(10, now), 0);
    let just_now = KeyUsage { count: 0, last_used: now, first_used: 0, failed: false, age_verified: 0 };
    assert_eq!(just_now.score(2, now), 2 * 600_000);
    let ahead = KeyUsage { count: 0, last_used: now + 1_200_000, first_used: 0, failed: false, age_verified: 0 };
    assert_eq!(ahead.score(1, now), -600_000);
}

#[test]
fn single_token_is_exhausted_on_the_third_call() {
    let mut state = RotationStateData::new();
    let tokens = one("tok");
    let mut now = DAY_START;
    for _ in 0..2 {
        let pick = state.get_next_sso_at(&tokens, 2, now);
        assert_eq!(pick.token.as_deref(), Some("tok"));
        assert!(!pick.healed);
        state.record_usage_at("tok", now);
        now += 1_000;
    }
    let third = state.get_next_sso_at(&tokens, 2, now);
    assert!(third.token.is_none());
    assert!(!third.healed);
    assert_eq!(state.get_usage_at("tok", now).count, 2);
    let again = state.get_next_sso_at(&tokens, 2, now + 5);
    assert!(again.token.is_none());
    let at_the_day = state.get_next_sso_at(&tokens, 2, DAY_START + RESET_INTERVAL_MS);
    assert!(at_the_day.token.is_none());
    let next_day = state.get_next_sso_at(&tokens, 2, DAY_START + RESET_INTERVAL_MS + 1);
    assert_eq!(next_day.token.as_deref(), Some("tok"));
    assert_eq!(state.get_usage_at("tok", 0).count, 0);
    assert_eq!(state.last_reset(), DAY_START + RESET_INTERVAL_MS + 1);
}

#[test]
fn single_token_with_the_clock() {
    let mut state = RotationStateData::new();
    let tokens = one("tok");
    for _ in 0..2 {
        assert_eq!(state.get_next_sso(&tokens, 2).token.as_deref(), Some("tok"));
        assert!(state.record_usage("tok"));
    }
    assert!(state.get_next_sso(&tokens, 2).token.is_none());
    assert!(state.last_reset() > 1_500_000_000_000);
    state.mark_failed("tok");
    assert!(state.get_usage_at("tok", 0).failed);
    state.mark_success("tok");
    assert!(!state.get_usage_at("tok", 0).failed);
    state.set_age_verified("tok", 1);
    assert_eq!(state.get_age_verified("tok"), 1);
}

#[test]
fn failed_tokens_are_skipped_until_all_have_failed() {
    let mut state = RotationStateData::new();
    let tokens = vec!["a".to_string(), "b".to_string()];
    let now = DAY_START;
    state.check_daily_reset_at(now);
    state.mark_failed_at("a", now);
    let pick = state.get_next_sso_at(&tokens, 5, now);
    assert_eq!(pick.token.as_deref(), Some("b"));
    state.mark_failed_at("b", now);
    let healed = state.get_next_sso_at(&tokens, 5, now);
    assert!(healed.healed);
    assert_eq!(healed.token.as_deref(), Some("a"));
    assert!(!state.get_usage_at("a", now).failed);
    assert!(!state.get_usage_at("b", now).failed);
    state.mark_failed_at("a", now);
    state.mark_success_at("a", now);
    assert_eq!(state.get_available_tokens_at(&tokens, 5, now), tokens);
}

#[test]
fn exhausted_and_failed_mix_gives_none() {
    let mut state = RotationStateData::new();
    let tokens = vec!["a".to_string(), "b".to_string()];
    let now = DAY_START;
    state.check_daily_reset_at(now);
    state.mark_failed_at("a", now);
    state.record_usage_at("b", now);
    let pick = state.get_next_sso_at(&tokens, 1, now);
    assert!(pick.token.is_none());
    assert!(!pick.healed);
    assert!(state.get_usage_at("a", now).failed);
}

#[test]
fn highest_score_wins_and_first_wins_ties() {
    let mut state = RotationStateData::new();
    let tokens = vec!["a".to_string(), "b".to_string(), "c".to_string()];
    let now = DAY_START;
    state.check_daily_reset_at(now - 10);
    assert_eq!(state.get_next_sso_at(&tokens, 5, now).token.as_deref(), Some("a"));
    state.record_usage_at("a", now);
    assert_eq!(state.get_next_sso_at(&tokens, 5, now + 1).token.as_deref(), Some("b"));
    state.record_usage_at("b", now + 1);
    assert_eq!(state.get_next_sso_at(&tokens, 5, now + 2).token.as_deref(), Some("c"));
    state.record_usage_at("c", now + 2);
    assert_eq!(state.get_next_sso_at(&tokens, 5, now + 600_000).token.as_deref(), Some("a"));
    state.record_usage_at("c", now + 3);
    state.record_usage_at("c", now + 4);
    assert_eq!(state.get_next_sso_at(&tokens, 5, now + 7_000_000).token.as_deref(), Some("a"));
    state.record_usage_at("a", now + 7_000_000);
    assert_eq!(state.get_next_sso_at(&tokens, 5, now + 7_000_001).token.as_deref(), Some("b"));
}

#[test]
fn no_tokens_gives_none() {
    let mut state = RotationStateData::new();
    let pick = state.get_next_sso_at(&Vec::new(), 5, DAY_START);
    assert!(pick.token.is_none());
    assert!(pick.healed);
}

#[test]
fn daily_reset_clears_counts_and_failures_only() {
    let mut state = RotationStateData::new();
    assert_eq!(state.last_reset(), 0);
    state.check_daily_reset_at(DAY_START);
    assert_eq!(state.last_reset(), DAY_START);
    state.record_usage_at("a", DAY_START + 5);
    state.mark_failed_at("a", DAY_START + 5);
    state.set_age_verified_at("a", 1, DAY_START + 5);
    state.check_daily_reset_at(DAY_START + RESET_INTERVAL_MS);
    assert_eq!(state.get_usage_at("a", 0).count, 1);
    assert!(state.get_usage_at("a", 0).failed);
    assert_eq!(state.last_reset(), DAY_START);
    state.check_daily_reset_at(DAY_START + RESET_INTERVAL_MS + 1);
    let u = state.get_usage_at("a", 0);
    assert_eq!(u.count, 0);
    assert!(!u.failed);
    assert_eq!(u.age_verified, 1);
    assert_eq!(u.last_used, DAY_START + 5);
    assert_eq!(state.last_reset(), DAY_START + RESET_INTERVAL_MS + 1);
}

#[test]
fn usage_is_kept_by_fingerprint() {
    let mut state = RotationStateData::new();
    assert!(state.usage(&key_hash("a")).is_none());
    assert_eq!(state.get_usage_at("a", 7), KeyUsage::new_at(7));
    assert_eq!(state.get_age_verified("a"), 0);
    let created = state.ensure_usage_at("a", 9);
    assert_eq!(created.first_used, 9);
    assert_eq!(state.ensure_usage_at("a", 11).first_used, 9);
    state.record_usage_at("a", 20);
    let u = state.usage(&key_hash("a")).unwrap();
    assert_eq!(u.count, 1);
    assert_eq!(u.last_used, 20);
    assert_eq!(u.first_used, 9);
    let entries = state.entries();
    assert_eq!(entries.len(), 1);
    assert_eq!(entries[0].key, "86f7e437faa5");
    let copy = RotationStateData::from_entries(5, 2, entries);
    assert_eq!(copy.last_reset(), 5);
    assert_eq!(copy.current_index(), 2);
    assert_eq!(copy.get_usage_at("a", 0).count, 1);
    let twice = RotationStateData::from_entries(
        0,
        0,
        vec![
            UsageEntry { key: "k".to_string(), usage: KeyUsage::new_at(1) },
            UsageEntry { key: "k".to_string(), usage: KeyUsage::new_at(2) },
        ],
    );
    assert_eq!(twice.usage("k").unwrap().first_used, 2);
}

#[test]
fn the_highest_score_wins_even_when_every_score_is_low() {
    let mut state = RotationStateData::new();
    let tokens = vec!["a".to_string(), "b".to_string()];
    let now = DAY_START;
    let minute: i64 = 60_000;
    state.check_daily_reset_at(now - 10);
    state.record_usage_at("a", now + 20 * minute);
    state.record_usage_at("b", now + 11 * minute);
    let a = state.get_usage_at("a", now).score(5, now);
    let b = state.get_usage_at("b", now).score(5, now);
    assert!(a < b && b < 0);
    let pick = state.get_next_sso_at(&tokens, 5, now);
    assert_eq!(pick.token.as_deref(), Some("b"));
    assert!(!pick.healed);
    assert_eq!(state.get_usage_at("a", now).count, 1);
    assert_eq!(state.get_usage_at("b", now).count, 1);
    let swapped = vec!["b".to_string(), "a".to_string()];
    assert_eq!(state.get_next_sso_at(&swapped, 5, now).token.as_deref(), Some("b"));
    state.record_usage_at("a", now + 11 * minute);
    let a = state.get_usage_at("a", now).score(5, now);
    let b = state.get_usage_at("b", now).score(5, now);
    assert!(b < a && a < 0);
    assert_eq!(state.get_next_sso_at(&tokens, 5, now).token.as_deref(), Some("a"));
    assert_eq!(state.get_next_sso_at(&swapped, 5, now).token.as_deref(), Some("a"));
    let fresh = vec!["x".to_string(), "y".to_string()];
    assert_eq!(RotationStateData::new().get_next_sso_at(&fresh, 5, now).token.as_deref(), Some("x"));
}

#[test]
fn a_new_window_starts_for_a_state_that_was_never_reset() {
    let mut state = RotationStateData::new();
    let tokens = one("tok");
    state.record_usage_at("tok", DAY_START);
    state.record_usage_at("tok", DAY_START);
    state.mark_failed_at("tok", DAY_START);
    assert_eq!(state.last_reset(), 0);
    let pick = state.get_next_sso_at(&tokens, 2, DAY_START + 1);
    assert_eq!(pick.token.as_deref(), Some("tok"));
    assert!(!pick.healed);
    let u = state.get_usage_at("tok", 0);
    assert_eq!((u.count, u.failed, u.last_used), (0, false, DAY_START));
    assert_eq!(state.last_reset(), DAY_START + 1);
    let mut early = RotationStateData::new();
    early.check_daily_reset_at(RESET_INTERVAL_MS);
    assert_eq!(early.last_reset(), 0);
    early.check_daily_reset_at(RESET_INTERVAL_MS + 1);
    assert_eq!(early.last_reset(), RESET_INTERVAL_MS + 1);
}
