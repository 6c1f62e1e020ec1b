use base64::Engine;
use dweb_cloud::api::{post_challenge, post_challenge_from, post_issue_token, post_issue_token_from, TokenIssueRequest};
use dweb_cloud::dav::{
    authorize_dav_request, dav_path_and_query, dav_request_target, mkcol_decision, mkcol_target,
    parse_basic_auth, precheck_dav_request, refusal_reply, resolve_relative_path, target_or_app_root,
    DavRefusal,
};
use dweb_cloud::identity::{sign_challenge, SignatureChallenge};
use dweb_cloud::records::AppConfig;
use dweb_cloud::store::FileStore;

fn basic(credentials: &[u8]) -> String {
    format!("Basic {}", base64::engine::general_purpose::STANDARD.encode(credentials))
}

#[test]
fn basic_credentials_are_split_and_trimmed() {
    let header = basic(b" user : pa:ss ");
    assert_eq!(parse_basic_auth(Some(&header)), Some(("user".to_string(), "pa:ss".to_string())));
    assert_eq!(parse_basic_auth(Some(&basic(b"u:p"))), Some(("u".to_string(), "p".to_string())));
}

#[test]
fn bad_basic_credentials_are_refused() {
    assert_eq!(parse_basic_auth(None), None);
    assert_eq!(parse_basic_auth(Some(&basic(b"nocolon"))), None);
    assert_eq!(parse_basic_auth(Some(&basic(b":p"))), None);
    assert_eq!(parse_basic_auth(Some(&basic(b"u:  "))), None);
    assert_eq!(parse_basic_auth(Some(&basic(&[0xff, b':', b'p']))), None);
    assert_eq!(parse_basic_auth(Some("Basic !!!")), None);
    assert_eq!(parse_basic_auth(Some("basic dTpw")), None);
    assert_eq!(parse_basic_auth(Some("Bearer dTpw")), None);
    assert_eq!(parse_basic_auth(Some("Basic")), None);
    assert_eq!(parse_basic_auth(Some("Basic dTpw")), Some(("u".to_string(), "p".to_string())));
}

#[test]
fn relative_paths_stay_below_the_root() {
    assert_eq!(resolve_relative_path("/root", "a/./b//c"), Some("/root/a/b/c".to_string()));
    assert_eq!(resolve_relative_path("/root", ""), Some("/root".to_string()));
    assert_eq!(resolve_relative_path("/root/", "a/"), Some("/root/a".to_string()));
    assert_eq!(resolve_relative_path("", "a/b"), Some("a/b".to_string()));
    assert_eq!(resolve_relative_path("/root", "a/../b"), None);
    assert_eq!(resolve_relative_path("/root", ".."), None);
    assert_eq!(resolve_relative_path("/root", "a\\b"), None);
    assert_eq!(resolve_relative_path("/root", "...").as_deref(), Some("/root/..."));
}

#[test]
fn mkcol_rules() {
    let root = mkcol_target("/r", "").unwrap_err();
    assert_eq!((root.status, root.body.as_str()), (405, ""));
    let bad = mkcol_target("/r", "../x").unwrap_err();
    assert_eq!((bad.status, bad.body.as_str()), (400, "invalid dav path"));
    assert_eq!(mkcol_target("/r", "a/b").unwrap(), "/r/a/b");
    assert_eq!(mkcol_decision(true, Some(true)).unwrap().status, 405);
    assert_eq!(mkcol_decision(false, None).unwrap().status, 400);
    assert_eq!(mkcol_decision(false, Some(false)).unwrap().status, 409);
    assert!(mkcol_decision(false, Some(true)).is_none());
}

#[test]
fn dav_paths_are_relative_to_the_space() {
    assert_eq!(dav_path_and_query("", None), "/");
    assert_eq!(dav_path_and_query("a/b.txt", None), "/a/b.txt");
    assert_eq!(dav_path_and_query("a", Some("x=1")), "/a?x=1");
    assert_eq!(dav_path_and_query("", Some("")), "/?");
}

fn apps() -> Vec<AppConfig> {
    vec![
        AppConfig { app_id: "gaubee-2fa".into(), label: "2FA".into(), token_ttl_secs: 3600 },
        AppConfig { app_id: "notes".into(), label: "Notes".into(), token_ttl_secs: 60 },
        AppConfig { app_id: "notes".into(), label: "Notes again".into(), token_ttl_secs: 120 },
    ]
}

fn request_for(store: &mut FileStore, secret: &str, app_id: &str, now: i64) -> TokenIssueRequest {
    let challenge = post_challenge(store, "hint", now, now).unwrap();
    assert_eq!(challenge.expires_at_ms, now + 300_000);
    assert_eq!(challenge.server_time_ms, now);
    assert_eq!(challenge.nonce.len(), 36);
    let signed = sign_challenge(
        secret,
        &SignatureChallenge {
            app_id: app_id.into(),
            nonce: challenge.nonce.clone(),
            timestamp_ms: now,
            device_id: "device".into(),
        },
    )
    .unwrap();
    TokenIssueRequest {
        public_key_hex: signed.public_key_hex,
        signature_hex: signed.signature_hex,
        app_id: signed.app_id,
        timestamp_ms: signed.timestamp_ms,
        device_id: signed.device_id,
        nonce: signed.nonce,
    }
}

#[test]
fn signed_challenge_is_exchanged_for_webdav_credentials() {
    let mut store = FileStore::new("/data").unwrap();
    let apps = apps();
    let request = request_for(&mut store, "secret", "gaubee-2fa", 1_000);
    let response = post_issue_token(&mut store, &apps, "gaubee-2fa", &request, 1_001, 2_000).unwrap();
    assert_eq!(response.app_id, "gaubee-2fa");
    assert_eq!(response.webdav_base_url, "/dav/gaubee-2fa");
    assert_eq!(response.username, request.public_key_hex);
    assert_eq!(response.expires_at_ms, 2_000 + 3_600_000);
    assert_eq!(response.password.len(), 48);
    // The credentials open the application space.
    let header = basic(format!("{}:{}", response.username, response.password).as_bytes());
    let token = authorize_dav_request(&store, &apps, "gaubee-2fa", Some(&header), 3_000).unwrap();
    assert_eq!(token.app_id, "gaubee-2fa");
    assert_eq!(store.list_account_apps(&request.public_key_hex).unwrap(), vec!["gaubee-2fa"]);
    // The challenge was consumed: the same request is refused.
    let again = post_issue_token(&mut store, &apps, "gaubee-2fa", &request, 1_001, 2_000).unwrap_err();
    assert_eq!((again.status, again.error.as_str()), (401, "challenge not found"));
}

#[test]
fn last_configuration_of_an_app_counts() {
    let mut store = FileStore::new("/data").unwrap();
    let request = request_for(&mut store, "secret", "notes", 0);
    let response = post_issue_token(&mut store, &apps(), "notes", &request, 0, 10).unwrap();
    assert_eq!(response.expires_at_ms, 10 + 120_000);
}

#[test]
fn token_requests_are_refused_with_reasons() {
    let mut store = FileStore::new("/data").unwrap();
    let apps = apps();
    let request = request_for(&mut store, "secret", "gaubee-2fa", 0);
    let e = post_issue_token(&mut store, &apps, "unknown", &request, 0, 0).unwrap_err();
    assert_eq!((e.status, e.error.as_str()), (404, "app not found"));
    let e = post_issue_token(&mut store, &apps, "notes", &request, 0, 0).unwrap_err();
    assert_eq!((e.status, e.error.as_str()), (400, "app id mismatch"));
    // Neither refusal consumed the challenge; an expired one is consumed.
    let e = post_issue_token(&mut store, &apps, "gaubee-2fa", &request, 300_001, 0).unwrap_err();
    assert_eq!((e.status, e.error.as_str()), (401, "challenge expired"));
    let e = post_issue_token(&mut store, &apps, "gaubee-2fa", &request, 0, 0).unwrap_err();
    assert_eq!((e.status, e.error.as_str()), (401, "challenge not found"));
    let mut tampered = request_for(&mut store, "secret", "gaubee-2fa", 0);
    tampered.device_id = "elsewhere".into();
    let e = post_issue_token(&mut store, &apps, "gaubee-2fa", &tampered, 0, 0).unwrap_err();
    assert_eq!((e.status, e.error.as_str()), (401, "signature is invalid"));
    let mut bad_key = request_for(&mut store, "secret", "gaubee-2fa", 0);
    bad_key.public_key_hex = "xyz".into();
    let e = post_issue_token(&mut store, &apps, "gaubee-2fa", &bad_key, 0, 0).unwrap_err();
    assert_eq!((e.status, e.error.as_str()), (401, "public key is invalid"));
    assert_eq!(store.store_stats(0).unwrap().token_count, 0);
}

#[test]
fn webdav_refuses_unknown_apps_and_bad_or_revoked_credentials() {
    let mut store = FileStore::new("/data").unwrap();
    let apps = apps();
    let issued = store.issue_token("pk", "gaubee-2fa", 0, 100).unwrap();
    let good = basic(format!("pk:{}", issued.password).as_bytes());
    assert!(matches!(
        authorize_dav_request(&store, &apps, "unknown", Some(&good), 0),
        Err(DavRefusal::AppNotFound)
    ));
    assert!(matches!(authorize_dav_request(&store, &apps, "gaubee-2fa", None, 0), Err(DavRefusal::Unauthorized)));
    let wrong = basic(b"pk:wrong");
    assert!(matches!(
        authorize_dav_request(&store, &apps, "gaubee-2fa", Some(&wrong), 0),
        Err(DavRefusal::Unauthorized)
    ));
    assert!(matches!(
        authorize_dav_request(&store, &apps, "notes", Some(&good), 0),
        Err(DavRefusal::Unauthorized)
    ));
    assert!(authorize_dav_request(&store, &apps, "gaubee-2fa", Some(&good), 100).is_ok());
    assert!(matches!(
        authorize_dav_request(&store, &apps, "gaubee-2fa", Some(&good), 101),
        Err(DavRefusal::Unauthorized)
    ));
    assert!(store.revoke_token("pk", &issued.record.token_id).unwrap());
    assert!(matches!(
        authorize_dav_request(&store, &apps, "gaubee-2fa", Some(&good), 0),
        Err(DavRefusal::Unauthorized)
    ));
}

#[test]
fn refusals_are_answered_with_their_replies() {
    let reply = refusal_reply(&DavRefusal::AppNotFound);
    assert_eq!((reply.status, reply.body.as_str(), reply.www_authenticate), (404, "app not found", None));
    let reply = refusal_reply(&DavRefusal::Unauthorized);
    assert_eq!((reply.status, reply.body.as_str()), (401, "please auth"));
    assert_eq!(reply.www_authenticate.as_deref(), Some("Basic realm=\"dwebCloud\""));
    let reply = refusal_reply(&DavRefusal::Internal("io error: disk".into()));
    assert_eq!((reply.status, reply.body.as_str(), reply.www_authenticate), (500, "io error: disk", None));
}

#[test]
fn precheck_refuses_before_the_store_is_read() {
    let apps = apps();
    let good = basic(b"pk:pw");
    assert!(matches!(precheck_dav_request(&apps, "unknown", Some(&good)), Some(DavRefusal::AppNotFound)));
    assert!(matches!(precheck_dav_request(&apps, "notes", None), Some(DavRefusal::Unauthorized)));
    assert!(matches!(precheck_dav_request(&apps, "notes", Some("Bearer x")), Some(DavRefusal::Unauthorized)));
    assert!(precheck_dav_request(&apps, "notes", Some(&good)).is_none());
}

#[test]
fn request_target_falls_back_to_the_app_root() {
    assert_eq!(dav_request_target("notes", "docs/a.txt", Some("x=1")), "/docs/a.txt?x=1");
    assert_eq!(dav_request_target("notes", "", None), "/");
    assert_eq!(dav_request_target("notes", "a b", None), "/dav/notes");
}

#[test]
fn target_is_kept_only_where_accepted() {
    assert_eq!(target_or_app_root("notes", "/a?b".to_string(), true), "/a?b");
    assert_eq!(target_or_app_root("notes", "/a b".to_string(), false), "/dav/notes");
}

const ID_BYTES: [u8; 16] = [70, 235, 208, 238, 14, 109, 67, 201, 185, 13, 204, 195, 90, 145, 63, 62];

fn uuid_of(bytes: [u8; 16]) -> String {
    uuid::Builder::from_random_bytes(bytes).into_uuid().to_string()
}

#[test]
fn challenge_nonce_is_made_of_the_drawn_bytes() {
    let mut store = FileStore::new("/data").unwrap();
    let response = post_challenge_from(&mut store, Ok(ID_BYTES.to_vec()), "hint", 10, 20).unwrap();
    assert_eq!(response.nonce, uuid_of(ID_BYTES));
    assert_eq!(response.nonce, "46ebd0ee-0e6d-43c9-b90d-ccc35a913f3e");
    assert_eq!((response.server_time_ms, response.expires_at_ms), (20, 300_010));
    let saved = store.take_challenge(&response.nonce).unwrap().unwrap();
    assert_eq!((saved.public_key_hint.as_str(), saved.created_at_ms), ("hint", 20));
    let failed = post_challenge_from(&mut store, Err("no entropy".into()), "hint", 10, 20).unwrap_err();
    assert_eq!((failed.status, failed.error.as_str()), (500, "getrandom failed: no entropy"));
}

#[test]
fn token_request_issues_from_the_drawn_bytes() {
    let mut store = FileStore::new("/data").unwrap();
    let apps = apps();
    let request = request_for(&mut store, "secret", "gaubee-2fa", 0);
    let password = [7u8; 24];
    let response = post_issue_token_from(
        &mut store, &apps, "gaubee-2fa", &request, 0, 0, Ok(ID_BYTES.to_vec()), Ok(password.to_vec()),
    )
    .unwrap();
    assert_eq!(response.password, "07".repeat(24));
    let tokens = store.list_tokens(&request.public_key_hex, Some("gaubee-2fa")).unwrap();
    assert_eq!(tokens.len(), 1);
    assert_eq!(tokens[0].token_id, uuid_of(ID_BYTES));
    assert_eq!(tokens[0].token_hash_hex, dweb_cloud::store::sha256_hex(&response.password));
    let request = request_for(&mut store, "secret", "gaubee-2fa", 0);
    let failed = post_issue_token_from(
        &mut store, &apps, "gaubee-2fa", &request, 0, 0, Ok(ID_BYTES.to_vec()), Err("down".into()),
    )
    .unwrap_err();
    assert_eq!((failed.status, failed.error.as_str()), (500, "io error: getrandom failed: down"));
    assert_eq!(store.list_tokens(&request.public_key_hex, None).unwrap().len(), 1);
}
