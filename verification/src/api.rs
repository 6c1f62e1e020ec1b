//! The decisions of the HTTP API: handing out challenges and exchanging a
//! signed challenge for an application token.

use vstd::prelude::*;
use crate::crypto::{is_uuid_v4_text, random_bytes, uuid_from_bytes, uuid_v4_text};
use crate::entries::{lemma_upsert_unique, lookup, remove_name, upsert};
use crate::store_laws::law_issued_token_authenticates;
use crate::identity::{signed_outcome, verify_signed_challenge, IdentityError, SignedChallenge};
use crate::records::{AppConfig, ChallengeRecord, IssuedToken};
use crate::store::{file_name, first_admitted, issued_from, password_hash_hex, with_app_space, FileStore};
use crate::hexcodec::hex_encode_spec;
use crate::text::text_eq;

verus! {

/// How long a challenge stays valid: five minutes.
pub const CHALLENGE_TTL_MS: i64 = 300000;

/// The answer to a challenge request.
#[derive(Debug, Clone)]
pub struct ChallengeResponse {
    pub nonce: String,
    pub server_time_ms: i64,
    pub expires_at_ms: i64,
}

/// A signed challenge sent to obtain a token for an application.
#[derive(Debug, Clone)]
pub struct TokenIssueRequest {
    pub public_key_hex: String,
    pub signature_hex: String,
    pub app_id: String,
    pub timestamp_ms: i64,
    pub device_id: String,
    pub nonce: String,
}

/// The WebDAV credentials issued for an application.
#[derive(Debug, Clone)]
pub struct TokenIssueResponse {
    pub app_id: String,
    pub webdav_base_url: String,
    pub username: String,
    pub password: String,
    pub expires_at_ms: i64,
}

/// A refused API request: its status and the error text of its JSON body.
#[derive(Debug, Clone)]
pub struct ApiFailure {
    pub status: u16,
    pub error: String,
}

/// Makes a failure with a fixed text.
fn failure(status: u16, error: &str) -> (f: ApiFailure)
    ensures
        f.status == status,
        f.error@ == error@,
{
    ApiFailure { status, error: String::from_str(error) }
}

/// Hands out a challenge for a public key hint: a random nonce, valid for
/// five minutes from `expiry_base_ms`, created at `created_at_ms`. The nonce
/// is made of 16 random bytes; where they cannot be drawn, the answer is 500.
pub fn post_challenge(
    store: &mut FileStore,
    public_key_hint: &str,
    expiry_base_ms: i64,
    created_at_ms: i64,
) -> (r: Result<ChallengeResponse, ApiFailure>)
    requires
        old(store).wf(),
        expiry_base_ms + CHALLENGE_TTL_MS <= i64::MAX,
    ensures
        final(store).wf(),
        match r {
            Ok(response) => exists|bytes: Seq<u8>|
                bytes.len() == 16 && #[trigger] challenge_saved(
                    *old(store),
                    *final(store),
                    response,
                    bytes,
                    public_key_hint@,
                    expiry_base_ms,
                    created_at_ms,
                ),
            Err(f) => f.status == 500 && *final(store) == *old(store),
        },
{
    let drawn = random_bytes(16);
    post_challenge_from(store, drawn, public_key_hint, expiry_base_ms, created_at_ms)
}

/// What handing out a challenge with drawn nonce bytes does: the nonce is the
/// random UUID of the bytes, the challenge record is saved under it, valid for
/// five minutes from the expiry base, and nothing else changes.
pub open spec fn challenge_saved(
    before: FileStore,
    after: FileStore,
    response: ChallengeResponse,
    bytes: Seq<u8>,
    public_key_hint: Seq<char>,
    expiry_base_ms: i64,
    created_at_ms: i64,
) -> bool {
    &&& response.nonce@ == uuid_v4_text(bytes)
    &&& is_uuid_v4_text(response.nonce@)
    &&& response.server_time_ms == created_at_ms
    &&& response.expires_at_ms == expiry_base_ms + CHALLENGE_TTL_MS
    &&& lookup(after.challenge_entries(), file_name(response.nonce@)) matches Some(saved) && {
        &&& saved.nonce@ == response.nonce@
        &&& saved.public_key_hint@ == public_key_hint
        &&& saved.expires_at_ms == response.expires_at_ms
        &&& saved.created_at_ms == created_at_ms
        &&& after.challenge_entries() == upsert(
            before.challenge_entries(),
            file_name(response.nonce@),
            saved,
        )
    }
    &&& after.token_entries() == before.token_entries()
    &&& after.spaces() == before.spaces()
    &&& after.dir() == before.dir()
}

/// Hands out a challenge with drawn nonce bytes: where the draw succeeded the
/// challenge is saved and answered, and otherwise the answer is 500 with the
/// draw's error and the store is unchanged.
pub fn post_challenge_from(
    store: &mut FileStore,
    drawn: Result<Vec<u8>, String>,
    public_key_hint: &str,
    expiry_base_ms: i64,
    created_at_ms: i64,
) -> (r: Result<ChallengeResponse, ApiFailure>)
    requires
        old(store).wf(),
        expiry_base_ms + CHALLENGE_TTL_MS <= i64::MAX,
        drawn matches Ok(b) ==> b@.len() == 16,
    ensures
        final(store).wf(),
        match drawn {
            Ok(bytes) => r matches Ok(response) && challenge_saved(
                *old(store),
                *final(store),
                response,
                bytes@,
                public_key_hint@,
                expiry_base_ms,
                created_at_ms,
            ),
            Err(detail) => r matches Err(f) && f.status == 500 && f.error@ == "getrandom failed: "@
                + detail@ && *final(store) == *old(store),
        },
{
    let bytes = match drawn {
        Ok(bytes) => bytes,
        Err(detail) => {
            let mut error = String::from_str("getrandom failed: ");
            error.append(detail.as_str());
            return Err(ApiFailure { status: 500, error });
        },
    };
    let record = ChallengeRecord {
        nonce: uuid_from_bytes(bytes.as_slice()),
        public_key_hint: String::from_str(public_key_hint),
        expires_at_ms: expiry_base_ms + CHALLENGE_TTL_MS,
        created_at_ms,
    };
    let ghost saved = record;
    match store.save_challenge(&record) {
        Ok(()) => {
            let response = ChallengeResponse {
                nonce: record.nonce,
                server_time_ms: record.created_at_ms,
                expires_at_ms: record.expires_at_ms,
            };
            assert(store.challenge_entries() == upsert(
                old(store).challenge_entries(),
                file_name(response.nonce@),
                saved,
            ));
            Ok(response)
        },
        Err(error) => Err(ApiFailure { status: 500, error: error.message() }),
    }
}

/// The application configured under the id; where several are, the last
/// one counts, as when the list is collected into a map.
pub open spec fn find_app(apps: Seq<AppConfig>, app_id: Seq<char>) -> Option<AppConfig>
    decreases apps.len(),
{
    if apps.len() == 0 {
        None
    } else if apps.last().app_id@ == app_id {
        Some(apps.last())
    } else {
        find_app(apps.drop_last(), app_id)
    }
}

pub fn lookup_app(apps: &Vec<AppConfig>, app_id: &str) -> (found: Option<AppConfig>)
    ensures
        found == find_app(apps@, app_id@),
{
    let mut found: Option<AppConfig> = None;
    let mut i: usize = 0;
    while i < apps.len()
        invariant
            i <= apps@.len(),
            found == find_app(apps@.subrange(0, i as int), app_id@),
        decreases apps@.len() - i,
    {
        assert(apps@.subrange(0, i + 1).drop_last() =~= apps@.subrange(0, i as int));
        if text_eq(apps[i].app_id.as_str(), app_id) {
            found = Some(apps[i].clone());
        }
        i = i + 1;
    }
    assert(apps@.subrange(0, i as int) =~= apps@);
    found
}

/// The signed challenge that a token request carries.
pub open spec fn request_challenge(request: TokenIssueRequest) -> SignedChallenge {
    SignedChallenge {
        public_key_hex: request.public_key_hex,
        signature_hex: request.signature_hex,
        app_id: request.app_id,
        timestamp_ms: request.timestamp_ms,
        device_id: request.device_id,
        nonce: request.nonce,
    }
}

/// The text of an identity error.
pub open spec fn identity_error_text(error: IdentityError) -> Seq<char> {
    match error {
        IdentityError::EmptyInput => "secret input is empty"@,
        IdentityError::MnemonicGeneration => "mnemonic generation failed"@,
        IdentityError::InvalidPublicKey => "public key is invalid"@,
        IdentityError::InvalidSignature => "signature is invalid"@,
    }
}

/// What a token request is answered and what it does to the store, given
/// how the issuing step ends. The application must be configured (else 404)
/// and named in the request too (else 400). The challenge is then taken, so
/// that it cannot be used again, whatever follows: it must exist (else 401)
/// and not have expired at `checked_at_ms` (else 401), and the signature must
/// verify (else 401). The token is issued at `issued_at_ms` and lives for the
/// application's token lifetime; where issuing fails, the answer is 500.
pub open spec fn token_request_outcome(
    before: FileStore,
    after: FileStore,
    apps: Seq<AppConfig>,
    app_id: Seq<char>,
    request: TokenIssueRequest,
    checked_at_ms: i64,
    issued_at_ms: i64,
    r: Result<TokenIssueResponse, ApiFailure>,
) -> bool {
    match find_app(apps, app_id) {
            None => r matches Err(f) && f.status == 404 && f.error@ == "app not found"@
                && after == before,
            Some(app) => if request.app_id@ != app_id {
                r matches Err(f) && f.status == 400 && f.error@ == "app id mismatch"@
                    && after == before
            } else {
                let challenges = before.challenge_entries();
                let name = file_name(request.nonce@);
                let expires_at_ms = issued_at_ms + app.token_ttl_secs * 1000;
                &&& after.challenge_entries() == remove_name(challenges, name)
                &&& lookup(after.challenge_entries(), name) is None
                &&& match lookup(challenges, name) {
                    None => r matches Err(f) && f.status == 401 && f.error@
                        == "challenge not found"@ && after.token_entries() == before.token_entries() && after.spaces() == before.spaces(),
                    Some(challenge) => if challenge.expires_at_ms < checked_at_ms {
                        r matches Err(f) && f.status == 401 && f.error@ == "challenge expired"@
                            && after.token_entries() == before.token_entries()
                            && after.spaces() == before.spaces()
                    } else {
                        match signed_outcome(request_challenge(request)) {
                            Err(error) => r matches Err(f) && f.status == 401 && f.error@
                                == identity_error_text(error) && after.token_entries()
                                == before.token_entries() && after.spaces() == before.spaces(),
                            Ok(()) => match r {
                                Ok(response) => {
                                    &&& response.app_id@ == app_id
                                    &&& response.webdav_base_url@ == "/dav/"@ + app_id
                                    &&& response.username@ == request.public_key_hex@
                                    &&& response.expires_at_ms == expires_at_ms
                                    &&& exists|issued: IssuedToken|
                                        {
                                            &&& issued.password == response.password
                                            &&& issued.record.token_hash_hex@ == password_hash_hex(
                                                response.password@,
                                            )
                                            &&& issued.record.public_key_hex@
                                                == request.public_key_hex@
                                            &&& issued.record.app_id@ == app_id
                                            &&& issued.record.created_at_ms == issued_at_ms
                                            &&& issued.record.expires_at_ms == expires_at_ms
                                            &&& !issued.record.revoked
                                            &&& after.token_entries() == upsert(
                                                before.token_entries(),
                                                file_name(issued.record.token_id@),
                                                issued.record,
                                            )
                                        }
                                    &&& after.spaces() == with_app_space(
                                        before.spaces(),
                                        request.public_key_hex@,
                                        app_id,
                                    )
                                },
                                Err(f) => f.status == 500 && after.token_entries() == before.token_entries() && after.spaces() == before.spaces(),
                            },
                        }
                    }
                }
            },
        }
}

/// A token request that is answered with credentials gives them the
/// application's lifetime from the time of issue: the answer's expiry and the
/// stored token's are `issued_at_ms + token_ttl_secs * 1000`. The stored token
/// belongs to the requesting key and the application, keeps the digest of the
/// answered password and is not revoked; where the lifetime is not negative,
/// the credentials are let in at the time of issue.
pub proof fn law_issued_credentials_live_for_lifetime(
    before: FileStore,
    after: FileStore,
    apps: Seq<AppConfig>,
    app: AppConfig,
    app_id: Seq<char>,
    request: TokenIssueRequest,
    checked_at_ms: i64,
    issued_at_ms: i64,
    response: TokenIssueResponse,
)
    requires
        before.wf(),
        find_app(apps, app_id) == Some(app),
        token_request_outcome(
            before,
            after,
            apps,
            app_id,
            request,
            checked_at_ms,
            issued_at_ms,
            Ok(response),
        ),
    ensures
        response.expires_at_ms == issued_at_ms + app.token_ttl_secs * 1000,
        exists|name: Seq<char>|
            #[trigger] lookup(after.token_entries(), name) matches Some(token) && {
                &&& token.expires_at_ms == issued_at_ms + app.token_ttl_secs * 1000
                &&& token.public_key_hex@ == request.public_key_hex@
                &&& token.app_id@ == app_id
                &&& token.token_hash_hex@ == password_hash_hex(response.password@)
                &&& !token.revoked
            },
        app.token_ttl_secs >= 0 ==> first_admitted(
            after.token_entries(),
            request.public_key_hex@,
            app_id,
            password_hash_hex(response.password@),
            issued_at_ms,
        ) is Some,
{
    let expires_at_ms = issued_at_ms + app.token_ttl_secs * 1000;
    let issued = choose|issued: IssuedToken|
        {
            &&& issued.password == response.password
            &&& issued.record.token_hash_hex@ == password_hash_hex(response.password@)
            &&& issued.record.public_key_hex@ == request.public_key_hex@
            &&& issued.record.app_id@ == app_id
            &&& issued.record.created_at_ms == issued_at_ms
            &&& issued.record.expires_at_ms == expires_at_ms
            &&& !issued.record.revoked
            &&& after.token_entries() == upsert(
                before.token_entries(),
                file_name(issued.record.token_id@),
                issued.record,
            )
        };
    before.lemma_wf_unique();
    let name = file_name(issued.record.token_id@);
    lemma_upsert_unique(before.token_entries(), name, issued.record);
    assert(lookup(after.token_entries(), name) == Some(issued.record));
    if app.token_ttl_secs >= 0 {
        law_issued_token_authenticates(
            before.token_entries(),
            issued.record,
            response.password@,
            issued_at_ms,
        );
    }
}

/// The request passes every check before a token is issued: the application
/// is configured and named in the request, its challenge is stored and not
/// expired at `checked_at_ms`, and the signature verifies.
pub open spec fn admitted_for_issue(
    before: FileStore,
    apps: Seq<AppConfig>,
    app_id: Seq<char>,
    request: TokenIssueRequest,
    checked_at_ms: i64,
) -> bool {
    &&& find_app(apps, app_id) is Some
    &&& request.app_id@ == app_id
    &&& lookup(before.challenge_entries(), file_name(request.nonce@)) matches Some(challenge)
        && challenge.expires_at_ms >= checked_at_ms
    &&& signed_outcome(request_challenge(request)) is Ok
}

/// Exchanges a signed challenge for a token of the application `app_id`
/// (the one named in the request path), as `token_request_outcome` says.
/// The token's id and password are drawn first: 16 and 24 random bytes.
pub fn post_issue_token(
    store: &mut FileStore,
    apps: &Vec<AppConfig>,
    app_id: &str,
    request: &TokenIssueRequest,
    checked_at_ms: i64,
    issued_at_ms: i64,
) -> (r: Result<TokenIssueResponse, ApiFailure>)
    requires
        old(store).wf(),
        find_app(apps@, app_id@) matches Some(app) ==> {
            &&& i64::MIN <= app.token_ttl_secs * 1000 <= i64::MAX
            &&& i64::MIN <= issued_at_ms + app.token_ttl_secs * 1000 <= i64::MAX
        },
    ensures
        final(store).wf(),
        final(store).dir() == old(store).dir(),
        token_request_outcome(
            *old(store),
            *final(store),
            apps@,
            app_id@,
            *request,
            checked_at_ms,
            issued_at_ms,
            r,
        ),
{
    let id_drawn = random_bytes(16);
    let password_drawn = random_bytes(24);
    post_issue_token_from(store, apps, app_id, request, checked_at_ms, issued_at_ms, id_drawn, password_drawn)
}

/// Exchanges a signed challenge for a token, with the token's id and
/// password made of drawn bytes. Where the request passes every check, the
/// answer is 200 with the password made of the password bytes and the token
/// stored under the id made of the id bytes, or 500 where a draw failed.
pub fn post_issue_token_from(
    store: &mut FileStore,
    apps: &Vec<AppConfig>,
    app_id: &str,
    request: &TokenIssueRequest,
    checked_at_ms: i64,
    issued_at_ms: i64,
    id_drawn: Result<Vec<u8>, String>,
    password_drawn: Result<Vec<u8>, String>,
) -> (r: Result<TokenIssueResponse, ApiFailure>)
    requires
        old(store).wf(),
        find_app(apps@, app_id@) matches Some(app) ==> {
            &&& i64::MIN <= app.token_ttl_secs * 1000 <= i64::MAX
            &&& i64::MIN <= issued_at_ms + app.token_ttl_secs * 1000 <= i64::MAX
        },
        id_drawn matches Ok(b) ==> b@.len() == 16,
        password_drawn matches Ok(b) ==> b@.len() == 24,
    ensures
        final(store).wf(),
        final(store).dir() == old(store).dir(),
        token_request_outcome(
            *old(store),
            *final(store),
            apps@,
            app_id@,
            *request,
            checked_at_ms,
            issued_at_ms,
            r,
        ),
        admitted_for_issue(*old(store), apps@, app_id@, *request, checked_at_ms) ==> match (
            id_drawn,
            password_drawn,
        ) {
            (Ok(id_bytes), Ok(bytes)) => r matches Ok(response) && response.password@
                == hex_encode_spec(bytes@) && (lookup(
                final(store).token_entries(),
                file_name(uuid_v4_text(id_bytes@)),
            ) matches Some(token) && token.token_hash_hex@ == password_hash_hex(response.password@)),
            _ => r matches Err(f) && f.status == 500,
        },
{
    let app = match lookup_app(apps, app_id) {
        Some(app) => app,
        None => return Err(failure(404, "app not found")),
    };
    if !text_eq(request.app_id.as_str(), app_id) {
        return Err(failure(400, "app id mismatch"));
    }
    let challenge = match store.take_challenge(request.nonce.as_str()) {
        Ok(Some(challenge)) => challenge,
        Ok(None) => return Err(failure(401, "challenge not found")),
        Err(error) => return Err(ApiFailure { status: 500, error: error.message() }),
    };
    if challenge.expires_at_ms < checked_at_ms {
        return Err(failure(401, "challenge expired"));
    }
    let signed = SignedChallenge {
        public_key_hex: request.public_key_hex.clone(),
        signature_hex: request.signature_hex.clone(),
        app_id: request.app_id.clone(),
        timestamp_ms: request.timestamp_ms,
        device_id: request.device_id.clone(),
        nonce: request.nonce.clone(),
    };
    if let Err(error) = verify_signed_challenge(&signed) {
        return Err(failure(401, error.message()));
    }
    let created_at_ms = issued_at_ms;
    let expires_at_ms = created_at_ms + app.token_ttl_secs * 1000;
    match store.issue_token_from(
        id_drawn,
        password_drawn,
        signed.public_key_hex.as_str(),
        app_id,
        created_at_ms,
        expires_at_ms,
    ) {
        Ok(issued) => {
            let mut base = String::from_str("/dav/");
            base.append(app_id);
            Ok(
                TokenIssueResponse {
                    app_id: String::from_str(app_id),
                    webdav_base_url: base,
                    username: signed.public_key_hex,
                    password: issued.password,
                    expires_at_ms,
                },
            )
        },
        Err(error) => Err(ApiFailure { status: 500, error: error.message() }),
    }
}

} // verus!
