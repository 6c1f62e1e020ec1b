use dweb_cloud::cli::{
    account_line, app_line, developer_meta_lines, overview_lines, plan_line, revoke_lines, stats_lines,
    token_issue_lines, token_line, server_url, app_tokens_path, token_revoke_path,
};
use dweb_cloud::records::{AccountOverview, AppConfig, PlanConfig, StoreStats, TokenRecord};

#[test]
fn issue_lines() {
    assert_eq!(
        token_issue_lines("http://h/dav/app", "pk", "pw", -5),
        vec!["WebDAV host: http://h/dav/app", "WebDAV account: pk", "WebDAV password: pw", "Expires At: -5"]
    );
}

#[test]
fn overview_and_stats_lines() {
    let overview = AccountOverview {
        public_key_hex: "pk".into(),
        app_ids: vec!["a".into(), "b".into(), "c".into()],
        token_count: 10,
        active_token_count: 7,
        revoked_token_count: 2,
        expired_token_count: 1,
    };
    assert_eq!(
        overview_lines(&overview),
        vec!["Account: pk", "Apps: a, b, c", "Tokens: 10", "Active: 7", "Revoked: 2", "Expired: 1"]
    );
    let empty = AccountOverview { app_ids: vec![], ..overview.clone() };
    assert_eq!(overview_lines(&empty)[1], "Apps: ");
    let one = AccountOverview { app_ids: vec!["x".into()], ..overview };
    assert_eq!(overview_lines(&one)[1], "Apps: x");
    let stats = StoreStats {
        account_count: 3,
        app_space_count: 4,
        token_count: 1234567890,
        active_token_count: 0,
        revoked_token_count: usize::MAX,
        expired_token_count: 9,
    };
    assert_eq!(
        stats_lines(&stats),
        vec![
            "Accounts: 3".to_string(),
            "App spaces: 4".to_string(),
            "Tokens: 1234567890".to_string(),
            "Active: 0".to_string(),
            format!("Revoked: {}", usize::MAX),
            "Expired: 9".to_string(),
        ]
    );
    assert_eq!(
        developer_meta_lines(true, "dweb-cloud-account", 2, 0, &stats),
        vec![
            "Developer mode: true",
            "Management scope: dweb-cloud-account",
            "Apps: 2",
            "Plans: 0",
            "Accounts: 3",
            "App spaces: 4",
            "Tokens: 1234567890"
        ]
    );
}

#[test]
fn listing_lines() {
    let token = TokenRecord {
        token_id: "t1".into(),
        token_hash_hex: "h".into(),
        public_key_hex: "pk".into(),
        app_id: "gaubee-2fa".into(),
        created_at_ms: 1,
        expires_at_ms: 10_000,
        revoked: false,
    };
    assert_eq!(token_line(&token), "- t1 | gaubee-2fa | revoked=false | expiresAtMs=10000");
    assert_eq!(account_line("pk"), "Account: pk");
    assert_eq!(revoke_lines("t1", true), vec!["Token: t1", "Revoked: true"]);
    let app = AppConfig { app_id: "gaubee-2fa".into(), label: "2FA".into(), token_ttl_secs: 3600 };
    assert_eq!(app_line(&app), "- gaubee-2fa | 2FA | ttl=3600s");
    let plan = PlanConfig {
        plan_id: "hosted".into(),
        label: "Hosted".into(),
        billing_mode: "yearly".into(),
        yearly_price_usd_cents: 999,
        yearly_price_cny_cents: 6800,
        max_entries: 1000,
        read_only_on_expiry: true,
        retention_days: 30,
        notes: vec![],
    };
    assert_eq!(plan_line(&plan), "- hosted | Hosted | usd=999 | cny=6800 | maxEntries=1000");
}

#[test]
fn addresses_are_resolved_against_the_server() {
    assert_eq!(server_url("http://127.0.0.1:8787", "/dav/notes").as_deref(), Some("http://127.0.0.1:8787/dav/notes"));
    assert_eq!(server_url("https://cloud.example/base/", "/dav/a").as_deref(), Some("https://cloud.example/dav/a"));
    assert_eq!(server_url("not a url", "/dav/a"), None);
}

#[test]
fn endpoint_paths() {
    assert_eq!(app_tokens_path("notes"), "/api/v1/apps/notes/tokens");
    assert_eq!(token_revoke_path("t-1"), "/api/v1/account/tokens/t-1/revoke");
    assert_eq!(
        server_url("http://127.0.0.1:8787/", &app_tokens_path("notes")).as_deref(),
        Some("http://127.0.0.1:8787/api/v1/apps/notes/tokens")
    );
}
