use dweb_cloud::entries::StoredFile;
use dweb_cloud::records::{ChallengeRecord, StorageError, TokenRecord, TokenStatus};
use dweb_cloud::store::{sha256_hex, FileStore};

fn temp_dir() -> String {
    format!("/tmp/dweb-cloud-test-{}", uuid::Uuid::new_v4())
}

#[test]
fn issues_and_authenticates_token() {
    let mut store = FileStore::new(&temp_dir()).unwrap();
    let issued = store.issue_token("pub", "gaubee-2fa", 1, 10_000).unwrap();
    let auth = store
        .authenticate_token("pub", "gaubee-2fa", &issued.password, 2)
        .unwrap();
    assert!(auth.is_some());
    let overview = store.account_overview("pub", 2).unwrap();
    assert_eq!(overview.token_count, 1);
    assert_eq!(overview.active_token_count, 1);
}

#[test]
fn lists_and_revokes_tokens() {
    let mut store = FileStore::new(&temp_dir()).unwrap();
    let issued = store.issue_token("pub", "gaubee-2fa", 1, 10_000).unwrap();
    let tokens = store.list_tokens("pub", Some("gaubee-2fa")).unwrap();
    assert_eq!(tokens.len(), 1);
    let revoked = store.revoke_token("pub", &issued.record.token_id).unwrap();
    assert!(revoked);
    let overview = store.account_overview("pub", 2).unwrap();
    assert_eq!(overview.revoked_token_count, 1);
    assert_eq!(overview.active_token_count, 0);
}

#[test]
fn sha256_hex_is_lowercase_digest() {
    assert_eq!(sha256_hex(""), "e3b0c44298fc1c149afbf4c8996fb92427ae41e4649b934ca495991b7852b855");
    assert_eq!(sha256_hex("abc"), "ba7816bf8f01cfea414140de5dae2223b00361a396177a9cb410ff61f20015ad");
}

#[test]
fn issued_token_shape() {
    let mut store = FileStore::new("/data").unwrap();
    let issued = store.issue_token("pk", "app", 5, 50).unwrap();
    assert_eq!(issued.password.len(), 48);
    assert!(issued.password.chars().all(|c| c.is_ascii_hexdigit() && !c.is_ascii_uppercase()));
    assert_eq!(issued.record.token_id.len(), 36);
    assert_eq!(issued.record.token_hash_hex, sha256_hex(&issued.password));
    assert_eq!(issued.record.public_key_hex, "pk");
    assert_eq!(issued.record.app_id, "app");
    assert_eq!(issued.record.created_at_ms, 5);
    assert_eq!(issued.record.expires_at_ms, 50);
    assert!(!issued.record.revoked);
    let other = store.issue_token("pk", "app", 5, 50).unwrap();
    assert_ne!(other.password, issued.password);
    assert_ne!(other.record.token_id, issued.record.token_id);
}

#[test]
fn authentication_checks_every_binding() {
    let mut store = FileStore::new("/data").unwrap();
    let issued = store.issue_token("pk", "app", 0, 100).unwrap();
    let pw = issued.password.as_str();
    assert_eq!(store.authenticate_token("pk", "app", pw, 100).unwrap().unwrap().token_id, issued.record.token_id);
    assert!(store.authenticate_token("pk", "app", pw, 101).unwrap().is_none());
    assert!(store.authenticate_token("pk", "other", pw, 1).unwrap().is_none());
    assert!(store.authenticate_token("other", "app", pw, 1).unwrap().is_none());
    assert!(store.authenticate_token("pk", "app", "wrong", 1).unwrap().is_none());
    assert!(store.revoke_token("pk", &issued.record.token_id).unwrap());
    assert!(store.authenticate_token("pk", "app", pw, 1).unwrap().is_none());
}

#[test]
fn revoke_needs_the_owner_and_a_known_id() {
    let mut store = FileStore::new("/data").unwrap();
    let issued = store.issue_token("pk", "app", 0, 100).unwrap();
    assert!(!store.revoke_token("other", &issued.record.token_id).unwrap());
    assert!(!store.revoke_token("pk", "no-such-token").unwrap());
    assert!(store.authenticate_token("pk", "app", &issued.password, 1).unwrap().is_some());
    assert!(store.revoke_token("pk", &issued.record.token_id).unwrap());
    // Revoking again still finds the token and says so.
    assert!(store.revoke_token("pk", &issued.record.token_id).unwrap());
}

fn token(id: &str, pk: &str, app: &str, created: i64, expires: i64, revoked: bool) -> StoredFile<TokenRecord> {
    StoredFile {
        name: format!("{id}.json"),
        record: TokenRecord {
            token_id: id.into(),
            token_hash_hex: sha256_hex(id),
            public_key_hex: pk.into(),
            app_id: app.into(),
            created_at_ms: created,
            expires_at_ms: expires,
            revoked,
        },
    }
}

fn store_with(tokens: Vec<StoredFile<TokenRecord>>, accounts: Vec<StoredFile<Vec<String>>>) -> FileStore {
    FileStore::from_contents("/data", Vec::new(), tokens, accounts).unwrap()
}

#[test]
fn listing_is_newest_first_and_stable() {
    let store = store_with(
        vec![
            token("a", "pk", "x", 10, 100, false),
            token("b", "pk", "y", 30, 100, false),
            token("c", "other", "x", 50, 100, false),
            token("d", "pk", "x", 10, 100, true),
            token("e", "pk", "x", 20, 100, false),
        ],
        Vec::new(),
    );
    let ids = |v: Vec<TokenRecord>| v.into_iter().map(|t| t.token_id).collect::<Vec<_>>();
    assert_eq!(ids(store.list_tokens("pk", None).unwrap()), vec!["b", "e", "a", "d"]);
    assert_eq!(ids(store.list_tokens("pk", Some("x")).unwrap()), vec!["e", "a", "d"]);
    assert_eq!(ids(store.list_tokens("pk", Some("z")).unwrap()), Vec::<String>::new());
    assert_eq!(ids(store.list_tokens("nobody", None).unwrap()), Vec::<String>::new());
}

#[test]
fn authentication_takes_first_match_in_listing_order() {
    let mut first = token("first", "pk", "x", 1, 100, false);
    let mut second = token("second", "pk", "x", 2, 100, false);
    first.record.token_hash_hex = sha256_hex("pw");
    second.record.token_hash_hex = sha256_hex("pw");
    let store = store_with(vec![first, second], Vec::new());
    assert_eq!(store.authenticate_token("pk", "x", "pw", 0).unwrap().unwrap().token_id, "first");
}

#[test]
fn overview_and_stats_count_by_status() {
    let accounts = vec![
        StoredFile { name: "pk".to_string(), record: vec!["zeta".to_string(), "alpha".to_string(), "Beta".to_string()] },
        StoredFile { name: "other".to_string(), record: vec!["x".to_string()] },
        StoredFile { name: "empty".to_string(), record: vec![] },
    ];
    let store = store_with(
        vec![
            token("a", "pk", "x", 1, 100, false),
            token("b", "pk", "x", 2, 5, false),
            token("c", "pk", "x", 3, 100, true),
            token("d", "other", "x", 4, 5, false),
            token("e", "pk", "y", 5, 50, false),
        ],
        accounts,
    );
    let overview = store.account_overview("pk", 50).unwrap();
    assert_eq!(overview.public_key_hex, "pk");
    assert_eq!(overview.app_ids, vec!["Beta", "alpha", "zeta"]);
    assert_eq!(overview.token_count, 4);
    assert_eq!(overview.active_token_count, 2);
    assert_eq!(overview.revoked_token_count, 1);
    assert_eq!(overview.expired_token_count, 1);
    let nobody = store.account_overview("nobody", 50).unwrap();
    assert!(nobody.app_ids.is_empty());
    assert_eq!(nobody.token_count, 0);
    let stats = store.store_stats(50).unwrap();
    assert_eq!(stats.account_count, 3);
    assert_eq!(stats.app_space_count, 4);
    assert_eq!(stats.token_count, 5);
    assert_eq!(stats.active_token_count, 2);
    assert_eq!(stats.revoked_token_count, 1);
    assert_eq!(stats.expired_token_count, 2);
}

#[test]
fn issuing_creates_the_app_space_once() {
    let mut store = FileStore::new("/data").unwrap();
    store.issue_token("pk", "b", 0, 1).unwrap();
    store.issue_token("pk", "a", 0, 1).unwrap();
    store.issue_token("pk", "b", 0, 1).unwrap();
    store.issue_token("other", "b", 0, 1).unwrap();
    assert_eq!(store.list_account_apps("pk").unwrap(), vec!["a", "b"]);
    let stats = store.store_stats(0).unwrap();
    assert_eq!(stats.account_count, 2);
    assert_eq!(stats.app_space_count, 3);
    assert_eq!(stats.token_count, 4);
}

fn challenge(nonce: &str, expires: i64) -> ChallengeRecord {
    ChallengeRecord { nonce: nonce.into(), public_key_hint: "hint".into(), expires_at_ms: expires, created_at_ms: 1 }
}

#[test]
fn challenges_are_taken_once() {
    let mut store = FileStore::new("/data").unwrap();
    store.save_challenge(&challenge("n1", 10)).unwrap();
    store.save_challenge(&challenge("n2", 20)).unwrap();
    store.save_challenge(&challenge("n1", 30)).unwrap();
    let taken = store.take_challenge("n1").unwrap().unwrap();
    assert_eq!(taken.expires_at_ms, 30);
    assert_eq!(taken.public_key_hint, "hint");
    assert!(store.take_challenge("n1").unwrap().is_none());
    assert_eq!(store.take_challenge("n2").unwrap().unwrap().expires_at_ms, 20);
    assert!(store.take_challenge("n3").unwrap().is_none());
}

#[test]
fn paths_follow_the_directory_layout() {
    let store = FileStore::new("./.data").unwrap();
    assert_eq!(store.data_dir(), "./.data");
    assert_eq!(store.challenges_dir(), "./.data/challenges");
    assert_eq!(store.tokens_dir(), "./.data/tokens");
    assert_eq!(store.accounts_dir(), "./.data/accounts");
    assert_eq!(store.challenge_path("n"), "./.data/challenges/n.json");
    assert_eq!(store.token_path("t"), "./.data/tokens/t.json");
    assert_eq!(store.account_app_dir("pk", "app"), "./.data/accounts/pk/apps/app");
    let slash = FileStore::new("/srv/").unwrap();
    assert_eq!(slash.tokens_dir(), "/srv/tokens");
    assert_eq!(slash.account_app_dir("/abs", "app"), "/abs/apps/app");
    for (base, part) in [("./.data", "x"), ("/srv/", "y"), ("", "z"), ("a", "/b"), ("a", "")] {
        let expected = std::path::Path::new(base).join(part).to_string_lossy().to_string();
        assert_eq!(dweb_cloud::text::path_join(base, part), expected);
    }
}

#[test]
fn duplicate_names_are_refused_on_load() {
    let dup = vec![token("a", "pk", "x", 1, 1, false), token("a", "pk", "y", 1, 1, false)];
    assert!(FileStore::from_contents("/d", Vec::new(), dup, Vec::new()).is_none());
    let apps = vec![StoredFile { name: "pk".to_string(), record: vec!["x".to_string(), "x".to_string()] }];
    assert!(FileStore::from_contents("/d", Vec::new(), Vec::new(), apps).is_none());
}

#[test]
fn token_status_and_error_messages() {
    let t = token("a", "pk", "x", 1, 10, false).record;
    assert_eq!(dweb_cloud::records::token_status(&t, 10), TokenStatus::Active);
    assert_eq!(dweb_cloud::records::token_status(&t, 11), TokenStatus::Expired);
    let r = token("a", "pk", "x", 1, 10, true).record;
    assert_eq!(dweb_cloud::records::token_status(&r, 0), TokenStatus::Revoked);
    assert_eq!(StorageError::Io("disk".into()).message(), "io error: disk");
    assert_eq!(StorageError::Json("bad".into()).message(), "json error: bad");
    assert_eq!(StorageError::AppNotFound.message(), "app not found");
}

fn is_uuid_v4_text(id: &str) -> bool {
    let chars: Vec<char> = id.chars().collect();
    chars.len() == 36
        && chars.iter().enumerate().all(|(i, c)| match i {
            8 | 13 | 18 | 23 => *c == '-',
            _ => c.is_ascii_digit() || ('a'..='f').contains(c),
        })
        && chars[14] == '4'
        && matches!(chars[19], '8' | '9' | 'a' | 'b')
}

#[test]
fn token_ids_are_lowercase_uuid_v4() {
    let mut store = FileStore::new("/data").unwrap();
    for _ in 0..8 {
        let issued = store.issue_token("pk", "app", 0, 1).unwrap();
        assert!(is_uuid_v4_text(&issued.record.token_id), "{}", issued.record.token_id);
        let listed = store.list_tokens("pk", Some("app")).unwrap();
        assert!(listed.iter().any(|t| t.token_id == issued.record.token_id));
    }
}

#[test]
fn revoking_twice_keeps_the_token_revoked() {
    let mut store = FileStore::new("/data").unwrap();
    let issued = store.issue_token("pk", "app", 0, 100).unwrap();
    assert!(store.revoke_token("pk", &issued.record.token_id).unwrap());
    let once = store.list_tokens("pk", None).unwrap();
    assert!(store.revoke_token("pk", &issued.record.token_id).unwrap());
    let twice = store.list_tokens("pk", None).unwrap();
    let fields = |ts: &Vec<TokenRecord>| {
        ts.iter().map(|t| (t.token_id.clone(), t.token_hash_hex.clone(), t.revoked)).collect::<Vec<_>>()
    };
    assert_eq!(fields(&once), fields(&twice));
    assert!(twice[0].revoked);
    for now in [0, 50, 100, 1_000] {
        assert!(store.authenticate_token("pk", "app", &issued.password, now).unwrap().is_none());
    }
}

#[test]
fn stats_move_only_from_active_to_expired_over_time() {
    let store = store_with(
        vec![
            token("a", "pk", "x", 1, 10, false),
            token("b", "pk", "x", 2, 20, false),
            token("c", "pk", "x", 3, 30, true),
        ],
        Vec::new(),
    );
    let early = store.store_stats(5).unwrap();
    let late = store.store_stats(25).unwrap();
    assert_eq!((early.active_token_count, early.expired_token_count, early.revoked_token_count), (2, 0, 1));
    assert_eq!((late.active_token_count, late.expired_token_count, late.revoked_token_count), (0, 2, 1));
    assert_eq!(early.token_count, late.token_count);
}

#[test]
fn overview_app_ids_are_sorted_and_distinct() {
    let mut store = FileStore::new("/data").unwrap();
    for app in ["m", "b", "z", "b", "a", "m"] {
        store.issue_token("pk", app, 0, 1).unwrap();
    }
    assert_eq!(store.account_overview("pk", 0).unwrap().app_ids, vec!["a", "b", "m", "z"]);
}

#[test]
fn app_spaces_are_kept_apart() {
    let store = FileStore::new("/data").unwrap();
    let a = store.account_app_dir("pk1", "app");
    let b = store.account_app_dir("pk2", "app");
    let c = store.account_app_dir("pk1", "other");
    assert_ne!(a, b);
    assert_ne!(a, c);
    assert!(!b.starts_with(&format!("{a}/")));
    assert_eq!(store.account_app_dir("pk1", "app"), a);
}

#[test]
fn issuing_from_drawn_bytes_is_exact() {
    let mut store = FileStore::new("/data").unwrap();
    let id = [0u8; 16];
    let issued = store.issue_token_from(Ok(id.to_vec()), Ok(vec![0xab; 24]), "pk", "app", 3, 9).unwrap();
    assert_eq!(issued.record.token_id, "00000000-0000-4000-8000-000000000000");
    assert_eq!(issued.password, "ab".repeat(24));
    assert_eq!(issued.record.token_hash_hex, sha256_hex(&issued.password));
    assert_eq!((issued.record.created_at_ms, issued.record.expires_at_ms), (3, 9));
    assert_eq!(store.list_account_apps("pk").unwrap(), vec!["app"]);
    let before = store.list_tokens("pk", None).unwrap().len();
    let err = store.issue_token_from(Err("x".into()), Ok(vec![0; 24]), "pk", "app", 3, 9).unwrap_err();
    assert_eq!(err.message(), "io error: getrandom failed: x");
    assert!(store.issue_token_from(Ok(vec![1; 16]), Err("y".into()), "pk", "other", 3, 9).is_err());
    assert_eq!(store.list_tokens("pk", None).unwrap().len(), before);
    assert_eq!(store.list_account_apps("pk").unwrap(), vec!["app"]);
    let all_ff = store.issue_token_from(Ok(vec![0xff; 16]), Ok(vec![0; 24]), "pk", "app", 0, 1).unwrap();
    assert_eq!(all_ff.record.token_id, "ffffffff-ffff-4fff-bfff-ffffffffffff");
}
