//! What the command-line client computes before it talks to a server.

use vstd::prelude::*;
use crate::identity::{mnemonic_phrase_for, sign_challenge, signed_by, IdentityError, SignatureChallenge, SignedChallenge};
use crate::records::{AccountOverview, AppConfig, PlanConfig, StoreStats, TokenRecord};
use crate::store::texts_of;
use crate::text::{decimal_spec, i64_to_decimal, signed_decimal, u64_to_decimal};

verus! {

/// The scope that account self-service requests are signed for.
pub const ACCOUNT_MANAGEMENT_SCOPE: &'static str = "dweb-cloud-account";

/// Signs a challenge nonce for an application scope, as of `timestamp_ms`,
/// with the key that the secret input stands for.
pub fn sign_for_scope(
    secret: &str,
    app_id: &str,
    nonce: &str,
    device_id: &str,
    timestamp_ms: i64,
) -> (r: Result<SignedChallenge, IdentityError>)
    ensures
        match mnemonic_phrase_for(secret@) {
            None => r == Err::<SignedChallenge, IdentityError>(IdentityError::EmptyInput),
            Some(phrase) => r matches Ok(signed) && signed_by(
                signed,
                phrase,
                app_id@,
                nonce@,
                timestamp_ms,
                device_id@,
            ),
        },
{
    sign_challenge(
        secret,
        &SignatureChallenge {
            app_id: String::from_str(app_id),
            nonce: String::from_str(nonce),
            timestamp_ms,
            device_id: String::from_str(device_id),
        },
    )
}


/// `true` or `false`, as `Display` writes a boolean.
pub open spec fn bool_text(b: bool) -> Seq<char> {
    if b {
        "true"@
    } else {
        "false"@
    }
}

fn bool_to_text(b: bool) -> (text: String)
    ensures
        text@ == bool_text(b),
{
    if b {
        String::from_str("true")
    } else {
        String::from_str("false")
    }
}

/// The decimal numeral of a count.
pub open spec fn count_text(n: usize) -> Seq<char> {
    decimal_spec(n as nat)
}

fn count_to_text(n: usize) -> (text: String)
    ensures
        text@ == count_text(n),
{
    u64_to_decimal(n as u64)
}

/// A label followed by a value.
fn labelled(label: &str, value: &str) -> (line: String)
    ensures
        line@ == label@ + value@,
{
    let mut line = String::from_str(label);
    line.append(value);
    line
}

/// The texts joined with a separator between each two.
pub open spec fn joined(texts: Seq<Seq<char>>, separator: Seq<char>) -> Seq<char>
    decreases texts.len(),
{
    if texts.len() == 0 {
        Seq::empty()
    } else if texts.len() == 1 {
        texts[0]
    } else {
        joined(texts.drop_last(), separator) + separator + texts.last()
    }
}

fn join(texts: &Vec<String>, separator: &str) -> (out: String)
    ensures
        out@ == joined(texts_of(texts@), separator@),
{
    let mut out = String::new();
    let mut i: usize = 0;
    while i < texts.len()
        invariant
            i <= texts@.len(),
            out@ == joined(texts_of(texts@).subrange(0, i as int), separator@),
        decreases texts@.len() - i,
    {
        let ghost before = texts_of(texts@).subrange(0, i as int);
        assert(texts_of(texts@).subrange(0, i + 1).drop_last() =~= before);
        if i > 0 {
            out.append(separator);
        } else {
            assert(out@ + texts[0 as int]@ =~= texts[0 as int]@);
        }
        out.append(texts[i].as_str());
        i = i + 1;
    }
    assert(texts_of(texts@).subrange(0, i as int) =~= texts_of(texts@));
    out
}

/// What `Url::parse(base)` joined with `reference` by `Url::join` gives, as
/// text, where both succeed.
pub uninterp spec fn url_join_spec(base: Seq<char>, reference: Seq<char>) -> Option<Seq<char>>;

/// `Url::parse(base)?.join(reference)?.to_string()`, or nothing where the
/// base or the joined reference is not a valid URL.
#[verifier::external_body]
fn url_join(base: &str, reference: &str) -> (joined: Option<String>)
    ensures
        match joined {
            Some(url) => url_join_spec(base@, reference@) == Some(url@),
            None => url_join_spec(base@, reference@) is None,
        },
{
    match reqwest::Url::parse(base) {
        Ok(parsed) => match parsed.join(reference) {
            Ok(url) => Some(url.to_string()),
            Err(_) => None,
        },
        Err(_) => None,
    }
}

/// An address resolved against the server's URL, as the client resolves the
/// API endpoints and the WebDAV base URL that the server answers.
pub fn server_url(server: &str, reference: &str) -> (url: Option<String>)
    ensures
        match url {
            Some(u) => url_join_spec(server@, reference@) == Some(u@),
            None => url_join_spec(server@, reference@) is None,
        },
{
    url_join(server, reference)
}

/// The endpoint that issues a token for an application.
pub fn app_tokens_path(app_id: &str) -> (path: String)
    ensures
        path@ == "/api/v1/apps/"@ + app_id@ + "/tokens"@,
{
    let mut path = String::from_str("/api/v1/apps/");
    path.append(app_id);
    path.append("/tokens");
    path
}

/// The endpoint that revokes one of the account's tokens.
pub fn token_revoke_path(token_id: &str) -> (path: String)
    ensures
        path@ == "/api/v1/account/tokens/"@ + token_id@ + "/revoke"@,
{
    let mut path = String::from_str("/api/v1/account/tokens/");
    path.append(token_id);
    path.append("/revoke");
    path
}

/// The lines printed for issued WebDAV credentials.
pub fn token_issue_lines(webdav_base_url: &str, username: &str, password: &str, expires_at_ms: i64) -> (lines: Vec<String>)
    ensures
        texts_of(lines@) == seq![
            "WebDAV host: "@ + webdav_base_url@,
            "WebDAV account: "@ + username@,
            "WebDAV password: "@ + password@,
            "Expires At: "@ + signed_decimal(expires_at_ms as int),
        ],
{
    let mut lines: Vec<String> = Vec::new();
    lines.push(labelled("WebDAV host: ", webdav_base_url));
    lines.push(labelled("WebDAV account: ", username));
    lines.push(labelled("WebDAV password: ", password));
    let expires = i64_to_decimal(expires_at_ms);
    lines.push(labelled("Expires At: ", expires.as_str()));
    assert(texts_of(lines@) =~= seq![
        "WebDAV host: "@ + webdav_base_url@,
        "WebDAV account: "@ + username@,
        "WebDAV password: "@ + password@,
        "Expires At: "@ + signed_decimal(expires_at_ms as int),
    ]);
    lines
}

/// The lines printed for an account overview.
pub fn overview_lines(overview: &AccountOverview) -> (lines: Vec<String>)
    ensures
        texts_of(lines@) == seq![
            "Account: "@ + overview.public_key_hex@,
            "Apps: "@ + joined(texts_of(overview.app_ids@), ", "@),
            "Tokens: "@ + count_text(overview.token_count),
            "Active: "@ + count_text(overview.active_token_count),
            "Revoked: "@ + count_text(overview.revoked_token_count),
            "Expired: "@ + count_text(overview.expired_token_count),
        ],
{
    let mut lines: Vec<String> = Vec::new();
    lines.push(labelled("Account: ", overview.public_key_hex.as_str()));
    let apps = join(&overview.app_ids, ", ");
    lines.push(labelled("Apps: ", apps.as_str()));
    let n = count_to_text(overview.token_count);
    lines.push(labelled("Tokens: ", n.as_str()));
    let n = count_to_text(overview.active_token_count);
    lines.push(labelled("Active: ", n.as_str()));
    let n = count_to_text(overview.revoked_token_count);
    lines.push(labelled("Revoked: ", n.as_str()));
    let n = count_to_text(overview.expired_token_count);
    lines.push(labelled("Expired: ", n.as_str()));
    assert(texts_of(lines@) =~= seq![
        "Account: "@ + overview.public_key_hex@,
        "Apps: "@ + joined(texts_of(overview.app_ids@), ", "@),
        "Tokens: "@ + count_text(overview.token_count),
        "Active: "@ + count_text(overview.active_token_count),
        "Revoked: "@ + count_text(overview.revoked_token_count),
        "Expired: "@ + count_text(overview.expired_token_count),
    ]);
    lines
}

/// The heading line of a token listing.
pub fn account_line(public_key_hex: &str) -> (line: String)
    ensures
        line@ == "Account: "@ + public_key_hex@,
{
    labelled("Account: ", public_key_hex)
}

/// The line printed for a token in a listing.
pub fn token_line(token: &TokenRecord) -> (line: String)
    ensures
        line@ == "- "@ + token.token_id@ + " | "@ + token.app_id@ + " | revoked="@ + bool_text(
            token.revoked,
        ) + " | expiresAtMs="@ + signed_decimal(token.expires_at_ms as int),
{
    let mut line = String::from_str("- ");
    line.append(token.token_id.as_str());
    line.append(" | ");
    line.append(token.app_id.as_str());
    line.append(" | revoked=");
    let revoked = bool_to_text(token.revoked);
    line.append(revoked.as_str());
    line.append(" | expiresAtMs=");
    let expires = i64_to_decimal(token.expires_at_ms);
    line.append(expires.as_str());
    line
}

/// The lines printed for a revocation.
pub fn revoke_lines(token_id: &str, revoked: bool) -> (lines: Vec<String>)
    ensures
        texts_of(lines@) == seq!["Token: "@ + token_id@, "Revoked: "@ + bool_text(revoked)],
{
    let mut lines: Vec<String> = Vec::new();
    lines.push(labelled("Token: ", token_id));
    let text = bool_to_text(revoked);
    lines.push(labelled("Revoked: ", text.as_str()));
    assert(texts_of(lines@) =~= seq!["Token: "@ + token_id@, "Revoked: "@ + bool_text(revoked)]);
    lines
}

/// The line printed for an application.
pub fn app_line(app: &AppConfig) -> (line: String)
    ensures
        line@ == "- "@ + app.app_id@ + " | "@ + app.label@ + " | ttl="@ + signed_decimal(
            app.token_ttl_secs as int,
        ) + "s"@,
{
    let mut line = String::from_str("- ");
    line.append(app.app_id.as_str());
    line.append(" | ");
    line.append(app.label.as_str());
    line.append(" | ttl=");
    let ttl = i64_to_decimal(app.token_ttl_secs);
    line.append(ttl.as_str());
    line.append("s");
    line
}

/// The line printed for a plan.
pub fn plan_line(plan: &PlanConfig) -> (line: String)
    ensures
        line@ == "- "@ + plan.plan_id@ + " | "@ + plan.label@ + " | usd="@ + signed_decimal(
            plan.yearly_price_usd_cents as int,
        ) + " | cny="@ + signed_decimal(plan.yearly_price_cny_cents as int) + " | maxEntries="@
            + count_text(plan.max_entries),
{
    let mut line = String::from_str("- ");
    line.append(plan.plan_id.as_str());
    line.append(" | ");
    line.append(plan.label.as_str());
    line.append(" | usd=");
    let usd = i64_to_decimal(plan.yearly_price_usd_cents);
    line.append(usd.as_str());
    line.append(" | cny=");
    let cny = i64_to_decimal(plan.yearly_price_cny_cents);
    line.append(cny.as_str());
    line.append(" | maxEntries=");
    let max = count_to_text(plan.max_entries);
    line.append(max.as_str());
    line
}

/// The lines printed for store statistics.
pub fn stats_lines(stats: &StoreStats) -> (lines: Vec<String>)
    ensures
        texts_of(lines@) == seq![
            "Accounts: "@ + count_text(stats.account_count),
            "App spaces: "@ + count_text(stats.app_space_count),
            "Tokens: "@ + count_text(stats.token_count),
            "Active: "@ + count_text(stats.active_token_count),
            "Revoked: "@ + count_text(stats.revoked_token_count),
            "Expired: "@ + count_text(stats.expired_token_count),
        ],
{
    let mut lines: Vec<String> = Vec::new();
    let n = count_to_text(stats.account_count);
    lines.push(labelled("Accounts: ", n.as_str()));
    let n = count_to_text(stats.app_space_count);
    lines.push(labelled("App spaces: ", n.as_str()));
    let n = count_to_text(stats.token_count);
    lines.push(labelled("Tokens: ", n.as_str()));
    let n = count_to_text(stats.active_token_count);
    lines.push(labelled("Active: ", n.as_str()));
    let n = count_to_text(stats.revoked_token_count);
    lines.push(labelled("Revoked: ", n.as_str()));
    let n = count_to_text(stats.expired_token_count);
    lines.push(labelled("Expired: ", n.as_str()));
    assert(texts_of(lines@) =~= seq![
        "Accounts: "@ + count_text(stats.account_count),
        "App spaces: "@ + count_text(stats.app_space_count),
        "Tokens: "@ + count_text(stats.token_count),
        "Active: "@ + count_text(stats.active_token_count),
        "Revoked: "@ + count_text(stats.revoked_token_count),
        "Expired: "@ + count_text(stats.expired_token_count),
    ]);
    lines
}

/// The lines printed for the developer metadata.
pub fn developer_meta_lines(
    developer_mode: bool,
    management_scope_app_id: &str,
    app_count: usize,
    plan_count: usize,
    stats: &StoreStats,
) -> (lines: Vec<String>)
    ensures
        texts_of(lines@) == seq![
            "Developer mode: "@ + bool_text(developer_mode),
            "Management scope: "@ + management_scope_app_id@,
            "Apps: "@ + count_text(app_count),
            "Plans: "@ + count_text(plan_count),
            "Accounts: "@ + count_text(stats.account_count),
            "App spaces: "@ + count_text(stats.app_space_count),
            "Tokens: "@ + count_text(stats.token_count),
        ],
{
    let mut lines: Vec<String> = Vec::new();
    let mode = bool_to_text(developer_mode);
    lines.push(labelled("Developer mode: ", mode.as_str()));
    lines.push(labelled("Management scope: ", management_scope_app_id));
    let n = count_to_text(app_count);
    lines.push(labelled("Apps: ", n.as_str()));
    let n = count_to_text(plan_count);
    lines.push(labelled("Plans: ", n.as_str()));
    let n = count_to_text(stats.account_count);
    lines.push(labelled("Accounts: ", n.as_str()));
    let n = count_to_text(stats.app_space_count);
    lines.push(labelled("App spaces: ", n.as_str()));
    let n = count_to_text(stats.token_count);
    lines.push(labelled("Tokens: ", n.as_str()));
    assert(texts_of(lines@) =~= seq![
        "Developer mode: "@ + bool_text(developer_mode),
        "Management scope: "@ + management_scope_app_id@,
        "Apps: "@ + count_text(app_count),
        "Plans: "@ + count_text(plan_count),
        "Accounts: "@ + count_text(stats.account_count),
        "App spaces: "@ + count_text(stats.app_space_count),
        "Tokens: "@ + count_text(stats.token_count),
    ]);
    lines
}

} // verus!
