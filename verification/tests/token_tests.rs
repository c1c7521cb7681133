use grok2api::services::token::manager::{
    pool_from_record, PoolRecord, RefreshOutcome, RefreshReport, TokenManager,
};
use grok2api::services::token::models::{
    effort_cost, parse_status, raw_token, record_from_token, status_word, token_from_record,
    EffortType, TokenInfo, TokenOp, TokenRecord, TokenStatus, DEFAULT_QUOTA, FAIL_THRESHOLD,
};
use grok2api::services::token::pool::TokenPool;
use grok2api::services::token::scheduler::TokenRefreshScheduler;
use grok2api::services::token::service::TokenService;

fn token(secret: &str, quota: i32) -> TokenInfo {
    let mut t = TokenInfo::new_at(secret.to_string(), 1_000);
    t.update_quota(quota);
    t
}

fn empty_record() -> TokenRecord {
    TokenRecord {
        token: None,
        status: None,
        quota: None,
        created_at: None,
        last_used_at: None,
        use_count: None,
        fail_count: None,
        last_fail_at: None,
        last_fail_reason: None,
        last_sync_at: None,
        tags: None,
        note: None,
        last_asset_clear_at: None,
    }
}

#[test]
fn effort_costs_are_one_and_four() {
    assert_eq!(effort_cost(&EffortType::Low), 1);
    assert_eq!(effort_cost(&EffortType::High), 4);
}

#[test]
fn new_token_is_active_with_default_quota() {
    let t = TokenInfo::new_at("abc".to_string(), 42);
    assert_eq!(t.token, "abc");
    assert_eq!(t.status, TokenStatus::Active);
    assert_eq!(t.quota, DEFAULT_QUOTA);
    assert_eq!(t.quota, 80);
    assert_eq!(t.created_at, 42);
    assert_eq!(t.use_count, 0);
    assert_eq!(t.fail_count, 0);
    assert!(t.last_used_at.is_none());
    assert!(t.tags.is_empty());
    assert!(t.is_available());
}

#[test]
fn new_token_reads_the_clock() {
    let t = TokenInfo::new("abc".to_string());
    assert!(t.created_at > 1_500_000_000_000);
}

#[test]
fn consume_low_on_last_quota_cools_down() {
    let mut t = token("a", 1);
    let actual = t.consume_at(&EffortType::Low, 5_000);
    assert_eq!(actual, 1);
    assert_eq!(t.quota, 0);
    assert_eq!(t.status, TokenStatus::Cooling);
    assert_eq!(t.last_used_at, Some(5_000));
    assert_eq!(t.use_count, 1);
    assert!(!t.is_available());
}

#[test]
fn consume_high_costs_four() {
    let mut t = token("a", 80);
    let actual = t.consume_at(&EffortType::High, 7);
    assert_eq!(actual, 4);
    assert_eq!(t.quota, 76);
    assert_eq!(t.use_count, 4);
    assert_eq!(t.status, TokenStatus::Active);
}

#[test]
fn consume_high_is_clamped_to_quota() {
    let mut t = token("a", 2);
    let actual = t.consume_at(&EffortType::High, 7);
    assert_eq!(actual, 2);
    assert_eq!(t.quota, 0);
    assert_eq!(t.use_count, 2);
    assert_eq!(t.status, TokenStatus::Cooling);
}

#[test]
fn consume_on_empty_quota_takes_nothing() {
    let mut t = token("a", 0);
    assert_eq!(t.status, TokenStatus::Cooling);
    let actual = t.consume(&EffortType::High);
    assert_eq!(actual, 0);
    assert_eq!(t.quota, 0);
    assert_eq!(t.use_count, 0);
    assert!(t.last_used_at.is_some());
}

#[test]
fn consume_clears_failures() {
    let mut t = token("a", 10);
    t.record_fail_at(401, "denied", 3);
    assert_eq!(t.fail_count, 1);
    assert_eq!(t.last_fail_reason.as_deref(), Some("denied"));
    t.consume_at(&EffortType::Low, 4);
    assert_eq!(t.fail_count, 0);
    assert!(t.last_fail_reason.is_none());
    assert_eq!(t.last_fail_at, Some(3));
}

#[test]
fn quota_never_negative_after_any_sequence() {
    let mut t = token("a", 3);
    let steps: [i32; 8] = [-5, 1, 0, 7, -1, 2, 100, -100];
    for (i, q) in steps.iter().enumerate() {
        t.consume_at(&EffortType::High, i as i64);
        assert!(t.quota >= 0);
        t.update_quota(*q);
        assert!(t.quota >= 0);
        t.consume_at(&EffortType::Low, i as i64);
        assert!(t.quota >= 0);
    }
}

#[test]
fn update_quota_clamps_and_resolves_status() {
    let mut t = token("a", 5);
    t.update_quota(-3);
    assert_eq!(t.quota, 0);
    assert_eq!(t.status, TokenStatus::Cooling);
    t.update_quota(9);
    assert_eq!(t.quota, 9);
    assert_eq!(t.status, TokenStatus::Active);
    t.status = TokenStatus::Expired;
    t.update_quota(4);
    assert_eq!(t.status, TokenStatus::Active);
    t.status = TokenStatus::Disabled;
    t.update_quota(6);
    assert_eq!(t.status, TokenStatus::Disabled);
    t.update_quota(0);
    assert_eq!(t.status, TokenStatus::Cooling);
}

#[test]
fn five_auth_failures_expire() {
    let mut t = token("a", 10);
    for i in 0..4 {
        t.record_fail_at(401, "denied", i);
        assert_eq!(t.status, TokenStatus::Active);
    }
    t.record_fail(401, "denied");
    assert_eq!(t.fail_count, FAIL_THRESHOLD);
    assert_eq!(t.status, TokenStatus::Expired);
    assert!(t.last_fail_at.is_some());
}

#[test]
fn other_failures_change_nothing() {
    let mut t = token("a", 10);
    t.record_fail(500, "boom");
    t.record_fail_at(429, "slow down", 9);
    t.record_fail_at(403, "no", 9);
    assert_eq!(t.fail_count, 0);
    assert!(t.last_fail_at.is_none());
    assert!(t.last_fail_reason.is_none());
    assert_eq!(t.status, TokenStatus::Active);
}

#[test]
fn record_success_clears_failures_and_counts_usage() {
    let mut t = token("a", 10);
    t.record_fail_at(401, "denied", 3);
    t.record_success_at(true, 8);
    assert_eq!(t.fail_count, 0);
    assert!(t.last_fail_at.is_none());
    assert!(t.last_fail_reason.is_none());
    assert_eq!(t.use_count, 1);
    assert_eq!(t.last_used_at, Some(8));
    t.record_success(false);
    assert_eq!(t.use_count, 1);
    assert_eq!(t.last_used_at, Some(8));
    assert_eq!(t.status, TokenStatus::Active);
    let mut empty = token("b", 0);
    empty.status = TokenStatus::Expired;
    empty.record_success_at(false, 1);
    assert_eq!(empty.status, TokenStatus::Cooling);
}

#[test]
fn reset_is_idempotent() {
    let mut t = token("a", 0);
    t.status = TokenStatus::Disabled;
    t.fail_count = 17;
    t.last_fail_reason = Some("x".to_string());
    t.use_count = 9;
    t.reset();
    assert_eq!(t.quota, DEFAULT_QUOTA);
    assert_eq!(t.status, TokenStatus::Active);
    assert_eq!(t.fail_count, 0);
    assert!(t.last_fail_reason.is_none());
    assert_eq!(t.use_count, 9);
    t.reset();
    assert_eq!(t.quota, DEFAULT_QUOTA);
    assert_eq!(t.status, TokenStatus::Active);
    assert_eq!(t.fail_count, 0);
}

#[test]
fn need_refresh_only_when_cooling_and_due() {
    let hour: i64 = 3_600_000;
    let mut t = token("a", 5);
    assert!(!t.need_refresh_at(8, 100 * hour));
    assert!(!t.need_refresh(8));
    t.update_quota(0);
    assert!(t.need_refresh_at(8, 0));
    assert!(t.need_refresh(8));
    t.mark_synced_at(10 * hour);
    assert!(!t.need_refresh_at(8, 17 * hour));
    assert!(!t.need_refresh_at(8, 18 * hour - 1));
    assert!(!t.need_refresh_at(8, 18 * hour));
    assert!(t.need_refresh_at(8, 18 * hour + 1));
    t.mark_synced();
    assert!(t.last_sync_at.unwrap() > 1_500_000_000_000);
}

#[test]
fn tags_are_kept_once() {
    let mut t = token("a", 5);
    assert!(!t.has_tag("nsfw"));
    assert!(t.add_tag("nsfw"));
    assert!(!t.add_tag("nsfw"));
    assert!(t.add_tag("other"));
    assert!(t.has_tag("nsfw"));
    assert_eq!(t.tags, vec!["nsfw".to_string(), "other".to_string()]);
}

#[test]
fn token_ops_apply() {
    let mut t = token("a", 0);
    t.apply(&TokenOp::Sync(7, true, 50));
    assert_eq!(t.quota, 7);
    assert_eq!(t.status, TokenStatus::Active);
    assert_eq!(t.use_count, 1);
    assert_eq!(t.last_used_at, Some(50));
    t.apply(&TokenOp::RefreshFailed(60));
    assert_eq!(t.status, TokenStatus::Expired);
    assert_eq!(t.last_sync_at, Some(60));
    t.apply(&TokenOp::Refresh(3, 70));
    assert_eq!(t.status, TokenStatus::Active);
    assert_eq!(t.quota, 3);
    assert_eq!(t.last_sync_at, Some(70));
    t.apply(&TokenOp::MarkAssetClear(80));
    assert_eq!(t.last_asset_clear_at, Some(80));
    t.apply(&TokenOp::Expire);
    assert_eq!(t.status, TokenStatus::Expired);
    t.apply(&TokenOp::Reset);
    assert_eq!(t.quota, 80);
}

#[test]
fn raw_token_strips_every_leading_prefix() {
    assert_eq!(raw_token("sso=abc"), "abc");
    assert_eq!(raw_token("sso=sso=abc"), "abc");
    assert_eq!(raw_token("abc"), "abc");
    assert_eq!(raw_token("xsso=abc"), "xsso=abc");
    assert_eq!(raw_token("sso="), "");
    assert_eq!(raw_token(""), "");
}

#[test]
fn status_words_round_trip() {
    for s in [TokenStatus::Active, TokenStatus::Disabled, TokenStatus::Expired, TokenStatus::Cooling]
    {
        assert_eq!(parse_status(&status_word(s)), s);
    }
    assert_eq!(status_word(TokenStatus::Cooling), "cooling");
    assert_eq!(parse_status("whatever"), TokenStatus::Active);
    assert_eq!(parse_status("Disabled"), TokenStatus::Active);
}

#[test]
fn record_without_secret_is_no_token() {
    let rec = empty_record();
    assert!(token_from_record(&rec, 5).is_none());
    let mut rec = empty_record();
    rec.token = Some(String::new());
    assert!(token_from_record(&rec, 5).is_none());
}

#[test]
fn record_defaults_are_applied() {
    let mut rec = empty_record();
    rec.token = Some("sso=abc".to_string());
    let t = token_from_record(&rec, 77).unwrap();
    assert_eq!(t.token, "abc");
    assert_eq!(t.status, TokenStatus::Active);
    assert_eq!(t.quota, 80);
    assert_eq!(t.created_at, 77);
    assert_eq!(t.use_count, 0);
    assert_eq!(t.fail_count, 0);
    assert!(t.tags.is_empty());
    assert_eq!(t.note, "");
}

#[test]
fn record_values_are_taken() {
    let mut rec = empty_record();
    rec.token = Some("abc".to_string());
    rec.status = Some("cooling".to_string());
    rec.quota = Some(0);
    rec.created_at = Some(1);
    rec.last_used_at = Some(2);
    rec.use_count = Some(3);
    rec.fail_count = Some(4);
    rec.last_fail_at = Some(5);
    rec.last_fail_reason = Some("why".to_string());
    rec.last_sync_at = Some(6);
    rec.tags = Some(vec!["x".to_string()]);
    rec.note = Some("n".to_string());
    rec.last_asset_clear_at = Some(7);
    let t = token_from_record(&rec, 77).unwrap();
    assert_eq!(t.status, TokenStatus::Cooling);
    assert_eq!(t.quota, 0);
    assert_eq!(t.created_at, 1);
    assert_eq!(t.last_used_at, Some(2));
    assert_eq!(t.use_count, 3);
    assert_eq!(t.fail_count, 4);
    assert_eq!(t.last_fail_at, Some(5));
    assert_eq!(t.last_fail_reason.as_deref(), Some("why"));
    assert_eq!(t.last_sync_at, Some(6));
    assert_eq!(t.tags, vec!["x".to_string()]);
    assert_eq!(t.note, "n");
    assert_eq!(t.last_asset_clear_at, Some(7));
    let back = record_from_token(&t);
    assert_eq!(back.token.as_deref(), Some("abc"));
    assert_eq!(back.status.as_deref(), Some("cooling"));
    assert_eq!(back.quota, Some(0));
    assert_eq!(back.use_count, Some(3));
    assert_eq!(back.tags, Some(vec!["x".to_string()]));
}

#[test]
fn record_counter_is_cut_to_32_bits() {
    let mut rec = empty_record();
    rec.token = Some("abc".to_string());
    rec.quota = Some(4_294_967_296 + 5);
    let t = token_from_record(&rec, 0).unwrap();
    assert_eq!(t.quota, 5);
}

#[test]
fn pool_add_get_remove() {
    let mut pool = TokenPool::new("ssoBasic");
    assert_eq!(pool.name, "ssoBasic");
    assert_eq!(pool.name(), "ssoBasic");
    assert_eq!(pool.count(), 0);
    pool.add(token("a", 5));
    pool.add(token("b", 6));
    pool.add(token("c", 7));
    assert_eq!(pool.count(), 3);
    assert_eq!(pool.position("a"), Some(0));
    assert_eq!(pool.position("b"), Some(1));
    assert_eq!(pool.position("d"), None);
    assert_eq!(pool.get("a").unwrap().quota, 5);
    assert!(pool.get("zzz").is_none());
    assert!(pool.remove("a"));
    assert_eq!(pool.count(), 2);
    assert_eq!(pool.list()[0].token, "b");
    assert_eq!(pool.list()[1].token, "c");
    assert!(!pool.remove("a"));
    assert_eq!(pool.count(), 2);
}

#[test]
fn pool_holds_each_secret_once() {
    let mut pool = TokenPool::new("p");
    pool.add(token("a", 5));
    pool.add(token("a", 7));
    assert_eq!(pool.count(), 1);
    let list = pool.list();
    assert_eq!(list.len(), 1);
    assert_eq!((list[0].token.as_str(), list[0].quota), ("a", 5));
    pool.add(token("b", 1));
    pool.add(token("a", 9));
    assert_eq!(pool.count(), 2);
    assert_eq!(pool.get("a").unwrap().quota, 5);
    assert!(pool.remove("a"));
    pool.add(token("a", 9));
    assert_eq!(pool.position("a"), Some(1));
    assert_eq!(pool.get("a").unwrap().quota, 9);
}

#[test]
fn pool_get_mut_changes_in_place() {
    let mut pool = TokenPool::new("p");
    pool.add(token("a", 5));
    pool.add(token("b", 6));
    match pool.get_mut("b") {
        Some(t) => {
            t.consume_at(&EffortType::High, 1);
        },
        None => panic!("token b is in the pool"),
    }
    assert!(pool.get_mut("c").is_none());
    assert_eq!(pool.get("b").unwrap().quota, 2);
    assert_eq!(pool.get("a").unwrap().quota, 5);
}

#[test]
fn select_prefers_most_quota() {
    let mut pool = TokenPool::new("p");
    pool.add(token("a", 5));
    pool.add(token("b", 5));
    pool.add(token("c", 2));
    assert_eq!(pool.candidates(), vec![0, 1]);
    let mut seen_a = false;
    let mut seen_b = false;
    for _ in 0..400 {
        let t = pool.select().unwrap();
        assert!(t.token == "a" || t.token == "b");
        assert_eq!(t.quota, 5);
        if t.token == "a" {
            seen_a = true;
        } else {
            seen_b = true;
        }
    }
    assert!(seen_a && seen_b);
}

#[test]
fn select_skips_unavailable() {
    let mut pool = TokenPool::new("p");
    assert!(pool.select().is_none());
    let mut disabled = token("d", 50);
    disabled.status = TokenStatus::Disabled;
    pool.add(disabled);
    pool.add(token("empty", 0));
    let mut expired = token("e", 60);
    expired.status = TokenStatus::Expired;
    pool.add(expired);
    assert!(pool.select().is_none());
    assert!(pool.candidates().is_empty());
    pool.add(token("ok", 1));
    assert_eq!(pool.select().unwrap().token, "ok");
}

#[test]
fn pool_stats_count_by_status() {
    let mut pool = TokenPool::new("p");
    pool.add(token("a", 5));
    pool.add(token("b", 0));
    let mut d = token("d", 7);
    d.status = TokenStatus::Disabled;
    pool.add(d);
    let mut e = token("e", 9);
    e.status = TokenStatus::Expired;
    pool.add(e);
    pool.add(token("f", 1));
    let stats = pool.stats();
    assert_eq!(stats.total, 5);
    assert_eq!(stats.active, 2);
    assert_eq!(stats.cooling, 1);
    assert_eq!(stats.disabled, 1);
    assert_eq!(stats.expired, 1);
    assert_eq!(stats.total_quota, 22);
}

#[test]
fn pool_reset_all_resets_every_credential() {
    let mut pool = TokenPool::new("p");
    pool.add(token("a", 0));
    pool.add(token("b", 3));
    pool.add(token("c", 1));
    pool.reset_all();
    let list = pool.list();
    assert_eq!(list.len(), 3);
    assert_eq!(list[0].quota, 80);
    assert_eq!(list[0].status, TokenStatus::Active);
    assert_eq!(list[1].quota, 80);
    assert_eq!(list[2].quota, 80);
    assert_eq!(list[2].token, "c");
}

#[test]
fn manager_add_and_get_token() {
    let mut mgr = TokenManager::new();
    assert!(!mgr.is_initialized());
    assert!(mgr.get_token("ssoBasic").is_none());
    assert!(mgr.add("sso=abc", "ssoBasic"));
    assert!(!mgr.add("abc", "ssoBasic"));
    assert!(mgr.add("abc", "ssoSuper"));
    assert_eq!(mgr.pools().len(), 2);
    assert_eq!(mgr.get_pool_tokens("ssoBasic").len(), 1);
    assert_eq!(mgr.get_pool_tokens("nope").len(), 0);
    assert_eq!(mgr.get_token("ssoBasic").as_deref(), Some("abc"));
    assert!(mgr.get_token("nope").is_none());
}

#[test]
fn manager_get_token_strips_prefix_of_stored_secret() {
    let mut mgr = TokenManager::new_at(0);
    let mut rec = empty_record();
    rec.token = Some("abc".to_string());
    let data = vec![PoolRecord { name: "ssoBasic".to_string(), tokens: vec![rec] }];
    mgr.load_from(&data, 9);
    assert!(mgr.is_initialized());
    assert_eq!(mgr.last_reload_at(), 9);
    assert_eq!(mgr.get_token("ssoBasic").as_deref(), Some("abc"));
}

#[test]
fn manager_consume_finds_token_in_any_pool() {
    let mut mgr = TokenManager::new();
    mgr.add_at("a", "ssoBasic", 1);
    mgr.add_at("b", "ssoSuper", 2);
    assert!(mgr.consume("sso=b", EffortType::High));
    assert!(!mgr.consume("zzz", EffortType::Low));
    assert_eq!(mgr.find("b").unwrap().quota, 76);
    assert_eq!(mgr.find("sso=a").unwrap().quota, 80);
    assert!(TokenService::consume(&mut mgr, "a", EffortType::Low));
    assert_eq!(mgr.find("a").unwrap().quota, 79);
}

#[test]
fn manager_record_fail_and_reset() {
    let mut mgr = TokenManager::new();
    mgr.add_at("a", "ssoBasic", 1);
    for _ in 0..5 {
        assert!(mgr.record_fail("a", 401, "denied"));
    }
    assert!(!mgr.record_fail("zzz", 401, "denied"));
    assert_eq!(mgr.find("a").unwrap().status, TokenStatus::Expired);
    assert!(mgr.get_token("ssoBasic").is_none());
    assert!(mgr.reset_token("sso=a"));
    assert!(!mgr.reset_token("zzz"));
    assert_eq!(mgr.find("a").unwrap().status, TokenStatus::Active);
    assert_eq!(mgr.find("a").unwrap().fail_count, 0);
}

#[test]
fn manager_remove_finds_the_secret_without_its_prefix() {
    let mut mgr = TokenManager::new();
    assert!(mgr.add_at("abc", "ssoBasic", 1));
    assert!(mgr.remove("sso=abc"));
    assert!(mgr.get_pool_tokens("ssoBasic").is_empty());
    assert!(!mgr.remove("abc"));
    assert!(mgr.add_at("sso=abc", "ssoBasic", 2));
    assert!(mgr.remove("abc"));
    assert!(!mgr.remove("sso=abc"));
    assert!(mgr.find("abc").is_none());
    assert_eq!(mgr.pools().len(), 1);
}

#[test]
fn manager_reset_all() {
    let mut mgr = TokenManager::new();
    mgr.add_at("a", "ssoBasic", 1);
    mgr.add_at("b", "ssoSuper", 1);
    mgr.consume("a", EffortType::High);
    mgr.apply("b", &TokenOp::UpdateQuota(0));
    mgr.reset_all();
    assert_eq!(mgr.find("a").unwrap().quota, 80);
    assert_eq!(mgr.find("b").unwrap().quota, 80);
    assert_eq!(mgr.find("b").unwrap().status, TokenStatus::Active);
}

#[test]
fn manager_tags_and_asset_clear() {
    let mut mgr = TokenManager::new();
    mgr.add_at("a", "ssoBasic", 1);
    assert!(!mgr.has_tag("a", "nsfw"));
    assert!(mgr.add_tag("sso=a", "nsfw"));
    assert!(mgr.add_tag("a", "nsfw"));
    assert!(!mgr.add_tag("zzz", "nsfw"));
    assert!(mgr.has_tag("sso=a", "nsfw"));
    assert!(!mgr.has_tag("zzz", "nsfw"));
    assert_eq!(mgr.find("a").unwrap().tags.len(), 1);
    assert!(mgr.mark_asset_clear("a"));
    assert!(!mgr.mark_asset_clear("zzz"));
    assert!(mgr.find("a").unwrap().last_asset_clear_at.is_some());
}

#[test]
fn manager_sync_usage() {
    let mut mgr = TokenManager::new();
    mgr.add_at("a", "ssoBasic", 1);
    assert!(mgr.sync_usage("sso=a", Some(12), EffortType::Low, false, true));
    let t = mgr.find("a").unwrap();
    assert_eq!(t.quota, 12);
    assert_eq!(t.use_count, 1);
    assert!(mgr.sync_usage("a", Some(0), EffortType::Low, false, false));
    assert_eq!(mgr.find("a").unwrap().status, TokenStatus::Cooling);
    assert!(mgr.sync_usage("a", Some(9), EffortType::Low, false, false));
    assert_eq!(mgr.find("a").unwrap().status, TokenStatus::Active);
    assert!(!mgr.sync_usage("a", None, EffortType::High, false, false));
    assert_eq!(mgr.find("a").unwrap().quota, 9);
    assert!(mgr.sync_usage("a", None, EffortType::High, true, false));
    assert_eq!(mgr.find("a").unwrap().quota, 5);
    assert!(!mgr.sync_usage("zzz", Some(3), EffortType::High, true, false));
}

#[test]
fn manager_stats() {
    let mut mgr = TokenManager::new();
    mgr.add_at("a", "ssoBasic", 1);
    mgr.add_at("b", "ssoBasic", 1);
    mgr.add_at("c", "ssoSuper", 1);
    let stats = mgr.get_stats();
    assert_eq!(stats.len(), 2);
    assert_eq!(stats[0].0, "ssoBasic");
    assert_eq!(stats[0].1.total, 2);
    assert_eq!(stats[0].1.total_quota, 160);
    assert_eq!(stats[1].0, "ssoSuper");
    assert_eq!(stats[1].1.active, 1);
}

#[test]
fn manager_reload_policy() {
    let mgr = TokenManager::new_at(1_000);
    assert!(!mgr.reload_due(0, 1_000_000));
    assert!(!mgr.reload_due(-5, 1_000_000));
    assert!(!mgr.reload_due(30_000, 30_999));
    assert!(mgr.reload_due(30_000, 31_000));
}

#[test]
fn manager_load_once_and_reload() {
    let mut mgr = TokenManager::new_at(0);
    let mut a = empty_record();
    a.token = Some("a".to_string());
    let mut skipped = empty_record();
    skipped.note = Some("no secret".to_string());
    let mut b = empty_record();
    b.token = Some("b".to_string());
    b.status = Some("expired".to_string());
    let first = vec![
        PoolRecord { name: "ssoBasic".to_string(), tokens: vec![a, skipped] },
        PoolRecord { name: "ssoBasic".to_string(), tokens: vec![b] },
    ];
    mgr.load_from(&first, 5);
    assert_eq!(mgr.pools().len(), 1);
    assert_eq!(mgr.get_pool_tokens("ssoBasic").len(), 1);
    assert_eq!(mgr.get_pool_tokens("ssoBasic")[0].token, "b");
    let mut c = empty_record();
    c.token = Some("c".to_string());
    let second = vec![PoolRecord { name: "ssoSuper".to_string(), tokens: vec![c] }];
    mgr.load_from(&second, 6);
    assert_eq!(mgr.get_pool_tokens("ssoSuper").len(), 0);
    assert_eq!(mgr.last_reload_at(), 5);
    mgr.reload_from(&second, 7);
    assert_eq!(mgr.get_pool_tokens("ssoSuper").len(), 1);
    assert_eq!(mgr.get_pool_tokens("ssoBasic").len(), 0);
    assert_eq!(mgr.last_reload_at(), 7);
}

#[test]
fn manager_due_tokens_and_refresh() {
    let hour: i64 = 3_600_000;
    let mut mgr = TokenManager::new();
    mgr.add_at("a", "ssoBasic", 1);
    mgr.add_at("b", "ssoBasic", 1);
    mgr.add_at("c", "ssoSuper", 1);
    mgr.add_at("d", "ssoSuper", 1);
    mgr.apply("a", &TokenOp::UpdateQuota(0));
    mgr.apply("c", &TokenOp::UpdateQuota(0));
    mgr.apply("d", &TokenOp::Refresh(0, 10 * hour));
    assert_eq!(mgr.due_tokens(8, 11 * hour), vec!["a".to_string(), "c".to_string()]);
    assert_eq!(mgr.due_tokens(8, 18 * hour), vec!["a".to_string(), "c".to_string()]);
    assert_eq!(
        mgr.due_tokens(8, 18 * hour + 1),
        vec!["a".to_string(), "c".to_string(), "d".to_string()]
    );
    let reports = vec![
        RefreshReport { token: "a".to_string(), outcome: RefreshOutcome::Remaining(20) },
        RefreshReport { token: "c".to_string(), outcome: RefreshOutcome::Failed },
        RefreshReport { token: "d".to_string(), outcome: RefreshOutcome::NoFigure },
        RefreshReport { token: "b".to_string(), outcome: RefreshOutcome::Remaining(0) },
        RefreshReport { token: "gone".to_string(), outcome: RefreshOutcome::Failed },
    ];
    let stats = mgr.refresh_all(&reports, 20 * hour);
    assert_eq!(stats.checked, 5);
    assert_eq!(stats.refreshed, 5);
    assert_eq!(stats.recovered, 1);
    assert_eq!(stats.expired, 1);
    let a = mgr.find("a").unwrap();
    assert_eq!(a.quota, 20);
    assert_eq!(a.status, TokenStatus::Active);
    assert_eq!(a.last_sync_at, Some(20 * hour));
    let c = mgr.find("c").unwrap();
    assert_eq!(c.status, TokenStatus::Expired);
    assert_eq!(c.last_sync_at, Some(20 * hour));
    assert_eq!(mgr.find("d").unwrap().last_sync_at, Some(10 * hour));
    assert_eq!(mgr.find("b").unwrap().status, TokenStatus::Cooling);
    let none = mgr.refresh_all(&Vec::new(), 21 * hour);
    assert_eq!(none.checked, 0);
    assert_eq!(none.recovered, 0);
}

#[test]
fn manager_all_tokens_are_distinct_and_clean() {
    let mut mgr = TokenManager::new_at(0);
    let mut recs = Vec::new();
    for raw in [" a ", "sso=a", "b", "  ", "sso=", "c"] {
        let mut r = empty_record();
        r.token = Some(raw.to_string());
        recs.push(r);
    }
    let mut other = empty_record();
    other.token = Some("b".to_string());
    let data = vec![
        PoolRecord { name: "one".to_string(), tokens: recs },
        PoolRecord { name: "two".to_string(), tokens: vec![other] },
    ];
    mgr.reload_from(&data, 1);
    assert_eq!(mgr.all_tokens(), vec!["a".to_string(), "b".to_string(), "c".to_string()]);
}

#[test]
fn token_for_model_uses_the_right_pool() {
    let mut mgr = TokenManager::new();
    mgr.add_at("basic", "ssoBasic", 1);
    assert_eq!(TokenService::get_token_for_model(&mgr, "grok-3").unwrap(), "basic");
    assert_eq!(TokenService::get_token_for_model(&mgr, "unknown-model").unwrap(), "basic");
    let err = TokenService::get_token_for_model(&mgr, "grok-4-heavy").unwrap_err();
    assert_eq!(err.status, 429);
    assert_eq!(err.body.message, "No available tokens. Please try again later.");
    assert_eq!(err.body.code.as_deref(), Some("rate_limit_exceeded"));
    mgr.add_at("super", "ssoSuper", 1);
    assert_eq!(TokenService::get_token_for_model(&mgr, "grok-4-heavy").unwrap(), "super");
}

#[test]
fn scheduler_starts_once() {
    let mut s = TokenRefreshScheduler::new(8);
    assert_eq!(s.interval_hours(), 8);
    assert!(!s.is_running());
    assert_eq!(s.start(), Some(28_800));
    assert!(s.is_running());
    assert_eq!(s.start(), None);
    assert!(s.stop());
    assert!(!s.stop());
    let mut zero = TokenRefreshScheduler::new(0);
    assert_eq!(zero.start(), Some(3_600));
    let mut negative = TokenRefreshScheduler::new(-3);
    assert_eq!(negative.start(), Some(3_600));
}

#[test]
fn stored_quota_below_zero_is_read_as_zero() {
    let mut rec = empty_record();
    rec.token = Some("sso=abc".to_string());
    rec.quota = Some(-5);
    let t = token_from_record(&rec, 9).unwrap();
    assert_eq!(t.token, "abc");
    assert_eq!(t.status, TokenStatus::Active);
    assert_eq!(t.quota, 0);
    rec.quota = Some(i64::MIN);
    assert_eq!(token_from_record(&rec, 9).unwrap().quota, 0);
    rec.quota = Some(-1);
    assert_eq!(token_from_record(&rec, 9).unwrap().quota, 0);
    rec.quota = Some(1);
    assert_eq!(token_from_record(&rec, 9).unwrap().quota, 1);
}

#[test]
fn stored_pools_hold_each_secret_once() {
    let mut first = empty_record();
    first.token = Some("sso=a".to_string());
    first.quota = Some(3);
    let mut second = empty_record();
    second.token = Some("a".to_string());
    second.quota = Some(9);
    let mut other = empty_record();
    other.token = Some("b".to_string());
    let rec = PoolRecord { name: "ssoBasic".to_string(), tokens: vec![first, other, second] };
    let pool = pool_from_record(&rec, 1);
    assert_eq!(pool.count(), 2);
    assert_eq!(pool.list()[0].token, "a");
    assert_eq!(pool.list()[0].quota, 3);
    assert_eq!(pool.list()[1].token, "b");
    let mut mgr = TokenManager::new_at(0);
    mgr.reload_from(&vec![rec], 2);
    assert_eq!(mgr.get_pool_tokens("ssoBasic").len(), 2);
    assert!(!mgr.add_at("sso=a", "ssoBasic", 3));
    assert_eq!(mgr.get_pool_tokens("ssoBasic").len(), 2);
}

#[test]
fn consume_never_raises_quota() {
    for start in [0, 1, 2, 3, 4, 5, 80] {
        for effort in [EffortType::Low, EffortType::High] {
            let mut t = token("a", start);
            let taken = t.consume_at(&effort, 1);
            assert!(t.quota >= 0 && t.quota <= start);
            assert_eq!(t.quota, start - taken);
        }
    }
}

#[test]
fn a_status_is_stored_under_its_word() {
    for (status, word) in [
        (TokenStatus::Active, "active"),
        (TokenStatus::Disabled, "disabled"),
        (TokenStatus::Expired, "expired"),
        (TokenStatus::Cooling, "cooling"),
    ] {
        let mut t = token("a", 5);
        t.status = status;
        assert_eq!(record_from_token(&t).status.as_deref(), Some(word));
        assert_eq!(status_word(status), word);
        assert_eq!(parse_status(word), status);
    }
}

#[test]
fn consumption_with_a_full_counter_changes_nothing() {
    let mut t = token("a", 5);
    assert_eq!(t.try_consume_at(&EffortType::High, 7), Some(4));
    assert_eq!((t.quota, t.use_count, t.last_used_at), (1, 4, Some(7)));
    t.use_count = i32::MAX - 1;
    assert_eq!(t.try_consume_at(&EffortType::Low, 8), Some(1));
    assert_eq!((t.quota, t.use_count), (0, i32::MAX));
    assert_eq!(t.status, TokenStatus::Cooling);
    t.update_quota(3);
    assert_eq!(t.try_consume_at(&EffortType::Low, 9), None);
    assert_eq!((t.quota, t.use_count, t.last_used_at), (3, i32::MAX, Some(8)));
    assert_eq!(t.status, TokenStatus::Active);
    t.update_quota(0);
    assert_eq!(t.try_consume_at(&EffortType::High, 9), Some(0));
    assert_eq!(t.quota, 0);
}
