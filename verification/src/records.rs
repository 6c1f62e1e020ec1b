//! The records that the store keeps and the configuration it is given.

use vstd::prelude::*;

verus! {

/// An application that tokens can be issued for.
#[derive(Debug)]
pub struct AppConfig {
    pub app_id: String,
    pub label: String,
    pub token_ttl_secs: i64,
}

impl Clone for AppConfig {
    fn clone(&self) -> (copy: Self)
        ensures
            copy == *self,
    {
        AppConfig {
            app_id: self.app_id.clone(),
            label: self.label.clone(),
            token_ttl_secs: self.token_ttl_secs,
        }
    }
}

/// A commercial plan, published read-only.
#[derive(Debug, Clone)]
pub struct PlanConfig {
    pub plan_id: String,
    pub label: String,
    pub billing_mode: String,
    pub yearly_price_usd_cents: i64,
    pub yearly_price_cny_cents: i64,
    pub max_entries: usize,
    pub read_only_on_expiry: bool,
    pub retention_days: i64,
    pub notes: Vec<String>,
}

/// A challenge handed out to a client, to be signed and consumed once.
#[derive(Debug)]
pub struct ChallengeRecord {
    pub nonce: String,
    pub public_key_hint: String,
    pub expires_at_ms: i64,
    pub created_at_ms: i64,
}

impl Clone for ChallengeRecord {
    fn clone(&self) -> (copy: Self)
        ensures
            copy == *self,
    {
        ChallengeRecord {
            nonce: self.nonce.clone(),
            public_key_hint: self.public_key_hint.clone(),
            expires_at_ms: self.expires_at_ms,
            created_at_ms: self.created_at_ms,
        }
    }
}

/// A token bound to an account and an application; only the SHA-256 digest
/// of its password is kept.
#[derive(Debug)]
pub struct TokenRecord {
    pub token_id: String,
    pub token_hash_hex: String,
    pub public_key_hex: String,
    pub app_id: String,
    pub created_at_ms: i64,
    pub expires_at_ms: i64,
    pub revoked: bool,
}

impl Clone for TokenRecord {
    fn clone(&self) -> (copy: Self)
        ensures
            copy == *self,
    {
        TokenRecord {
            token_id: self.token_id.clone(),
            token_hash_hex: self.token_hash_hex.clone(),
            public_key_hex: self.public_key_hex.clone(),
            app_id: self.app_id.clone(),
            created_at_ms: self.created_at_ms,
            expires_at_ms: self.expires_at_ms,
            revoked: self.revoked,
        }
    }
}

/// A newly issued token and its password, which is shown only once.
#[derive(Debug, Clone)]
pub struct IssuedToken {
    pub password: String,
    pub record: TokenRecord,
}

/// What an account holds: its application spaces and its tokens by status.
#[derive(Debug, Clone)]
pub struct AccountOverview {
    pub public_key_hex: String,
    pub app_ids: Vec<String>,
    pub token_count: usize,
    pub active_token_count: usize,
    pub revoked_token_count: usize,
    pub expired_token_count: usize,
}

/// Counts over the whole store.
#[derive(Debug, Clone)]
pub struct StoreStats {
    pub account_count: usize,
    pub app_space_count: usize,
    pub token_count: usize,
    pub active_token_count: usize,
    pub revoked_token_count: usize,
    pub expired_token_count: usize,
}

/// Why a store operation failed.
#[derive(Debug, Clone)]
pub enum StorageError {
    /// Reading or writing the data directory, or drawing randomness, failed.
    Io(String),
    /// A stored record could not be read or written as JSON.
    Json(String),
    AppNotFound,
}

impl StorageError {
    /// The text that describes the error.
    pub fn message(&self) -> (text: String)
        ensures
            text@ == match self {
                StorageError::Io(detail) => "io error: "@ + detail@,
                StorageError::Json(detail) => "json error: "@ + detail@,
                StorageError::AppNotFound => "app not found"@,
            },
    {
        match self {
            StorageError::Io(detail) => {
                let mut text = String::from_str("io error: ");
                text.append(detail.as_str());
                text
            },
            StorageError::Json(detail) => {
                let mut text = String::from_str("json error: ");
                text.append(detail.as_str());
                text
            },
            StorageError::AppNotFound => String::from_str("app not found"),
        }
    }
}

/// Where a token stands at a given time.
#[derive(Debug, Clone, Copy, PartialEq, Eq, Structural)]
pub enum TokenStatus {
    Active,
    Revoked,
    Expired,
}

/// A revoked token is revoked; otherwise it is expired once its expiry lies
/// before `now_ms`, and active until then.
pub open spec fn status_of(token: TokenRecord, now_ms: i64) -> TokenStatus {
    if token.revoked {
        TokenStatus::Revoked
    } else if token.expires_at_ms < now_ms {
        TokenStatus::Expired
    } else {
        TokenStatus::Active
    }
}

pub fn token_status(token: &TokenRecord, now_ms: i64) -> (status: TokenStatus)
    ensures
        status == status_of(*token, now_ms),
{
    if token.revoked {
        TokenStatus::Revoked
    } else if token.expires_at_ms < now_ms {
        TokenStatus::Expired
    } else {
        TokenStatus::Active
    }
}

/// How many of the tokens have the status.
pub open spec fn count_status(tokens: Seq<TokenRecord>, now_ms: i64, status: TokenStatus) -> nat
    decreases tokens.len(),
{
    if tokens.len() == 0 {
        0
    } else {
        count_status(tokens.drop_last(), now_ms, status) + if status_of(tokens.last(), now_ms)
            == status {
            1nat
        } else {
            0nat
        }
    }
}

/// Every token is exactly one of active, revoked and expired.
pub proof fn lemma_status_partition(tokens: Seq<TokenRecord>, now_ms: i64)
    ensures
        count_status(tokens, now_ms, TokenStatus::Active) + count_status(
            tokens,
            now_ms,
            TokenStatus::Revoked,
        ) + count_status(tokens, now_ms, TokenStatus::Expired) == tokens.len(),
    decreases tokens.len(),
{
    if tokens.len() > 0 {
        lemma_status_partition(tokens.drop_last(), now_ms);
    }
}

/// Counts the tokens that have the status.
pub fn count_tokens(tokens: &Vec<TokenRecord>, now_ms: i64, status: TokenStatus) -> (count: usize)
    ensures
        count == count_status(tokens@, now_ms, status),
{
    let mut count: usize = 0;
    let mut i: usize = 0;
    while i < tokens.len()
        invariant
            i <= tokens@.len(),
            count <= i,
            count == count_status(tokens@.subrange(0, i as int), now_ms, status),
        decreases tokens@.len() - i,
    {
        assert(tokens@.subrange(0, i + 1).drop_last() =~= tokens@.subrange(0, i as int));
        if token_status(&tokens[i], now_ms) == status {
            count = count + 1;
        }
        i = i + 1;
    }
    assert(tokens@.subrange(0, i as int) =~= tokens@);
    count
}

} // verus!
