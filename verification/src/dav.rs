//! The rules of the WebDAV front: Basic credentials, paths below an
//! application space, collection creation and request authorization.

use vstd::prelude::*;
use vstd::string::*;
use vstd::utf8::{decode_utf8, encode_utf8, valid_utf8};
use crate::crypto::{base64_standard_decode, base64_standard_decode_spec, utf8_to_string};
use crate::records::{AppConfig, TokenRecord};
use crate::store::{first_admitted, password_hash_hex, FileStore};
use crate::text::{path_join, path_join_spec, strip_prefix_spec, text_eq, trim, trim_spec};

verus! {

/// The position of the first occurrence of the character, or the length of
/// the text where it does not occur.
pub open spec fn index_of(s: Seq<char>, c: char) -> int
    decreases s.len(),
{
    if s.len() == 0 {
        0
    } else if s[0] == c {
        0
    } else {
        1 + index_of(s.drop_first(), c)
    }
}

pub proof fn lemma_index_of(s: Seq<char>, c: char, j: int)
    requires
        0 <= j <= s.len(),
        forall|k: int| 0 <= k < j ==> s[k] != c,
        j < s.len() ==> s[j] == c,
    ensures
        index_of(s, c) == j,
    decreases j,
{
    if j > 0 {
        assert forall|k: int| 0 <= k < j - 1 implies s.drop_first()[k] != c by {
            assert(s.drop_first()[k] == s[k + 1]);
        }
        if j < s.len() {
            assert(s.drop_first()[j - 1] == s[j]);
        }
        lemma_index_of(s.drop_first(), c, j - 1);
    }
}

/// Finds the first occurrence of the character from `start` on.
fn find_char(s: &str, c: char, start: usize) -> (end: usize)
    requires
        start <= s@.len(),
    ensures
        start <= end <= s@.len(),
        end - start == index_of(s@.skip(start as int), c),
        forall|k: int| start <= k < end ==> s@[k] != c,
        end < s@.len() ==> s@[end as int] == c,
{
    let n = s.unicode_len();
    let mut end = start;
    while end < n && s.get_char(end) != c
        invariant
            n == s@.len(),
            start <= end <= n,
            forall|k: int| start <= k < end ==> s@[k] != c,
        decreases n - end,
    {
        end = end + 1;
    }
    proof {
        let rest = s@.skip(start as int);
        assert forall|k: int| 0 <= k < end - start implies rest[k] != c by {
            assert(rest[k] == s@[start + k]);
        }
        lemma_index_of(rest, c, end - start);
    }
    end
}

/// The user name and password that a `Basic` authorization header carries:
/// after `Basic `, base64 of UTF-8 text; the text is split at its first `:`
/// and both parts are trimmed; neither may be empty.
pub open spec fn basic_credentials(header: Seq<char>) -> Option<(Seq<char>, Seq<char>)> {
    match strip_prefix_spec(header, "Basic "@) {
        None => None,
        Some(encoded) => match base64_standard_decode_spec(encode_utf8(encoded)) {
            None => None,
            Some(bytes) => if !valid_utf8(bytes) {
                None
            } else {
                let text = decode_utf8(bytes);
                let k = index_of(text, ':');
                if k >= text.len() {
                    None
                } else {
                    let user = trim_spec(text.take(k));
                    let password = trim_spec(text.skip(k + 1));
                    if user.len() == 0 || password.len() == 0 {
                        None
                    } else {
                        Some((user, password))
                    }
                }
            },
        },
    }
}

/// Reads the credentials of a `Basic` authorization header.
pub fn parse_basic_auth(authorization: Option<&str>) -> (credentials: Option<(String, String)>)
    ensures
        match authorization {
            None => credentials is None,
            Some(header) => match basic_credentials(header@) {
                None => credentials is None,
                Some((user, password)) => credentials matches Some((u, p)) && u@ == user && p@
                    == password,
            },
        },
{
    let header = match authorization {
        Some(header) => header,
        None => return None,
    };
    let prefix = "Basic ";
    let prefix_len = prefix.unicode_len();
    let header_len = header.unicode_len();
    if header_len < prefix_len || !text_eq(header.substring_char(0, prefix_len), prefix) {
        return None;
    }
    let encoded = header.substring_char(prefix_len, header_len);
    assert(encoded@ =~= header@.skip(prefix_len as int));
    let bytes = match base64_standard_decode(encoded.as_bytes()) {
        Some(bytes) => bytes,
        None => return None,
    };
    let text = match utf8_to_string(bytes) {
        Some(text) => text,
        None => return None,
    };
    let text = text.as_str();
    let text_len = text.unicode_len();
    let colon = find_char(text, ':', 0);
    assert(text@.skip(0) =~= text@);
    if colon >= text_len {
        return None;
    }
    let user_part = text.substring_char(0, colon);
    let password_part = text.substring_char(colon + 1, text_len);
    assert(user_part@ =~= text@.take(colon as int));
    assert(password_part@ =~= text@.skip(colon + 1));
    let user = trim(user_part);
    let password = trim(password_part);
    if user.as_str().is_empty() || password.as_str().is_empty() {
        return None;
    }
    Some((user, password))
}

/// Whether the text holds the character.
fn has_char(s: &str, c: char) -> (found: bool)
    ensures
        found == s@.contains(c),
{
    assert(s@.skip(0) =~= s@);
    let end = find_char(s, c, 0);
    if end < s.unicode_len() {
        true
    } else {
        assert forall|k: int| 0 <= k < s@.len() implies s@[k] != c by {}
        false
    }
}

/// Resolving the rest of a request path below `path`, one `/`-separated
/// segment at a time: empty and `.` segments are skipped, `..` and segments
/// holding a backslash refuse the path, and other segments are joined on.
pub open spec fn resolve_segments(path: Seq<char>, rest: Seq<char>) -> Option<Seq<char>>
    decreases rest.len(),
{
    let k = index_of(rest, '/');
    let segment = rest.take(k);
    let next = if segment.len() == 0 || segment == "."@ {
        Some(path)
    } else if segment == ".."@ || segment.contains('\\') {
        None
    } else {
        Some(path_join_spec(path, segment))
    };
    if k >= rest.len() {
        next
    } else {
        match next {
            None => None,
            Some(p) => {
                proof {
                    lemma_index_of_bound(rest, '/');
                }
                resolve_segments(p, rest.skip(k + 1))
            },
        }
    }
}

pub proof fn lemma_index_of_bound(s: Seq<char>, c: char)
    ensures
        0 <= index_of(s, c) <= s.len(),
    decreases s.len(),
{
    if s.len() > 0 {
        lemma_index_of_bound(s.drop_first(), c);
    }
}

/// Before its first occurrence the character does not occur.
proof fn lemma_index_of_first(s: Seq<char>, c: char)
    ensures
        forall|i: int| 0 <= i < index_of(s, c) ==> s[i] != c,
    decreases s.len(),
{
    lemma_index_of_bound(s, c);
    if s.len() > 0 && s[0] != c {
        lemma_index_of_first(s.drop_first(), c);
        assert forall|i: int| 0 <= i < index_of(s, c) implies s[i] != c by {
            if i > 0 {
                assert(s[i] == s.drop_first()[i - 1]);
            }
        }
    }
}

/// `path` lies at or below `base`: it begins with `base`, and where it is
/// longer and `base` does not end in `/`, a `/` follows `base`.
pub open spec fn at_or_below(base: Seq<char>, path: Seq<char>) -> bool {
    &&& base.len() <= path.len()
    &&& path.subrange(0, base.len() as int) == base
    &&& (path.len() > base.len() && base.len() > 0 && base.last() != '/') ==> path[base.len() as int]
        == '/'
}

proof fn lemma_at_or_below_transitive(a: Seq<char>, b: Seq<char>, c: Seq<char>)
    requires
        at_or_below(a, b),
        at_or_below(b, c),
    ensures
        at_or_below(a, c),
{
    assert(c.subrange(0, a.len() as int) =~= b.subrange(0, a.len() as int)) by {
        assert forall|i: int| 0 <= i < a.len() implies c[i] == b[i] by {
            assert(c.subrange(0, b.len() as int)[i] == b[i]);
        }
    }
    if c.len() > a.len() && a.len() > 0 && a.last() != '/' {
        if b.len() > a.len() {
            assert(c.subrange(0, b.len() as int)[a.len() as int] == b[a.len() as int]);
        }
    }
}

/// Resolving a request path never leaves the path it starts from: every
/// result lies at or below it.
pub proof fn law_resolved_path_stays_below(path: Seq<char>, rest: Seq<char>)
    ensures
        resolve_segments(path, rest) matches Some(p) ==> at_or_below(path, p),
    decreases rest.len(),
{
    let k = index_of(rest, '/');
    lemma_index_of_bound(rest, '/');
    lemma_index_of_first(rest, '/');
    let segment = rest.take(k);
    assert(at_or_below(path, path)) by {
        assert(path.subrange(0, path.len() as int) =~= path);
    }
    let next = if segment.len() == 0 || segment == "."@ {
        Some(path)
    } else if segment == ".."@ || segment.contains('\\') {
        None
    } else {
        Some(path_join_spec(path, segment))
    };
    if let Some(q) = next {
        if q != path {
            assert(segment[0] != '/');
            let joined = path_join_spec(path, segment);
            assert(joined.subrange(0, path.len() as int) =~= path);
        }
        assert(at_or_below(path, q));
        if k < rest.len() {
            law_resolved_path_stays_below(q, rest.skip(k + 1));
            if let Some(p) = resolve_segments(path, rest) {
                lemma_at_or_below_transitive(path, q, p);
            }
        }
    }
}

/// A plain segment (not empty, not `.` or `..`, holding no `/` and no
/// backslash) is joined on below the path, whatever else it holds, and the
/// rest of the request path is then resolved below the joined path.
pub proof fn law_plain_segment_is_joined(path: Seq<char>, segment: Seq<char>, rest: Seq<char>)
    requires
        segment.len() > 0,
        segment != "."@,
        segment != ".."@,
        !segment.contains('/'),
        !segment.contains('\\'),
    ensures
        resolve_segments(path, segment) == Some(path_join_spec(path, segment)),
        resolve_segments(path, segment + seq!['/'] + rest) == resolve_segments(
            path_join_spec(path, segment),
            rest,
        ),
{
    assert forall|k: int| 0 <= k < segment.len() implies segment[k] != '/' by {
        if segment[k] == '/' {
            assert(segment.contains(segment[k]));
        }
    }
    lemma_index_of(segment, '/', segment.len() as int);
    assert(segment.take(segment.len() as int) =~= segment);
    let whole = segment + seq!['/'] + rest;
    assert forall|k: int| 0 <= k < segment.len() implies whole[k] != '/' by {
        assert(whole[k] == segment[k]);
    }
    lemma_index_of(whole, '/', segment.len() as int);
    assert(whole.take(segment.len() as int) =~= segment);
    assert(whole.skip(segment.len() as int + 1) =~= rest);
}

/// The path that a request path `tail` names below `root`, or none where it
/// would leave the root.
pub fn resolve_relative_path(root: &str, tail: &str) -> (resolved: Option<String>)
    ensures
        match resolved {
            Some(path) => resolve_segments(root@, tail@) == Some(path@),
            None => resolve_segments(root@, tail@) is None,
        },
{
    let n = tail.unicode_len();
    let mut path = String::from_str(root);
    let mut start: usize = 0;
    assert(tail@.skip(0) =~= tail@);
    loop
        invariant
            n == tail@.len(),
            start <= n,
            resolve_segments(root@, tail@) == resolve_segments(path@, tail@.skip(start as int)),
        decreases n - start,
    {
        let end = find_char(tail, '/', start);
        let segment = tail.substring_char(start, end);
        let ghost rest = tail@.skip(start as int);
        let ghost old_path = path@;
        proof {
            lemma_index_of_bound(rest, '/');
            assert(segment@ =~= rest.take(end - start));
        }
        if segment.is_empty() || text_eq(segment, ".") {
        } else if text_eq(segment, "..") || has_char(segment, '\\') {
            return None;
        } else {
            path = path_join(path.as_str(), segment);
        }
        if end == n {
            return Some(path);
        }
        assert(rest.skip(end - start + 1) =~= tail@.skip(end + 1));
        start = end + 1;
    }
}

/// A plain reply: a status and a text body, empty where there is none.
#[derive(Debug, Clone)]
pub struct PlainReply {
    pub status: u16,
    pub body: String,
}

/// Where a `MKCOL` request would create its collection below `root`: refused
/// with 405 for the application root itself and with 400 for a path that
/// leaves the root.
pub fn mkcol_target(root: &str, tail: &str) -> (r: Result<String, PlainReply>)
    ensures
        tail@.len() == 0 ==> (r matches Err(reply) && reply.status == 405 && reply.body@.len() == 0),
        r matches Ok(target) ==> at_or_below(root@, target@),
        tail@.len() != 0 ==> match resolve_segments(root@, tail@) {
            Some(path) => r matches Ok(target) && target@ == path,
            None => r matches Err(reply) && reply.status == 400 && reply.body@
                == "invalid dav path"@,
        },
{
    proof {
        law_resolved_path_stays_below(root@, tail@);
    }
    if tail.is_empty() {
        return Err(PlainReply { status: 405, body: String::new() });
    }
    match resolve_relative_path(root, tail) {
        Some(target) => Ok(target),
        None => Err(PlainReply { status: 400, body: String::from_str("invalid dav path") }),
    }
}

/// What a `MKCOL` request is answered once the target is known: 405 where it
/// exists, 400 where it has no parent, 409 where the parent is missing, and
/// otherwise nothing yet, the collection is to be created.
pub fn mkcol_decision(target_exists: bool, parent_exists: Option<bool>) -> (reply: Option<PlainReply>)
    ensures
        target_exists ==> (reply matches Some(r) && r.status == 405 && r.body@.len() == 0),
        !target_exists ==> match parent_exists {
            None => reply matches Some(r) && r.status == 400 && r.body@ == "invalid dav path"@,
            Some(false) => reply matches Some(r) && r.status == 409 && r.body@.len() == 0,
            Some(true) => reply is None,
        },
{
    if target_exists {
        return Some(PlainReply { status: 405, body: String::new() });
    }
    match parent_exists {
        None => Some(PlainReply { status: 400, body: String::from_str("invalid dav path") }),
        Some(false) => Some(PlainReply { status: 409, body: String::new() }),
        Some(true) => None,
    }
}

/// `/{tail}`, or `/` for an empty tail, followed by `?{query}` where there is one.
pub open spec fn dav_path_and_query_spec(tail: Seq<char>, query: Option<Seq<char>>) -> Seq<char> {
    (if tail.len() == 0 {
        "/"@
    } else {
        "/"@ + tail
    }) + match query {
        Some(q) => "?"@ + q,
        None => Seq::<char>::empty(),
    }
}

/// The path and query that a WebDAV request is handed on with, relative to
/// the application space: `/{tail}` and the original query.
pub fn dav_path_and_query(tail: &str, query: Option<&str>) -> (path: String)
    ensures
        path@ == dav_path_and_query_spec(
            tail@,
            match query {
                Some(q) => Some(q@),
                None => None,
            },
        ),
{
    let mut path = String::from_str("/");
    path.append(tail);
    assert(tail@.len() == 0 ==> path@ =~= "/"@);
    match query {
        Some(q) => {
            path.append("?");
            path.append(q);
        },
        None => {
            assert(path@ =~= path@ + Seq::<char>::empty());
        },
    }
    path
}

/// Whether `Uri::builder().path_and_query(text).build()` succeeds.
pub uninterp spec fn http_path_and_query_accepted(text: Seq<char>) -> bool;

/// `Uri::builder().path_and_query(text).build().is_ok()`.
#[verifier::external_body]
fn uri_path_accepted(text: &str) -> (accepted: bool)
    ensures
        accepted == http_path_and_query_accepted(text@),
{
    http::Uri::builder().path_and_query(text).build().is_ok()
}

/// The path and query that a WebDAV request is handed on with: the one that
/// `dav_path_and_query` makes where the `http` crate accepts it as a URI, and
/// otherwise `/dav/{app_id}`.
pub fn dav_request_target(app_id: &str, tail: &str, query: Option<&str>) -> (target: String)
    ensures
        ({
            let wanted = dav_path_and_query_spec(
                tail@,
                match query {
                    Some(q) => Some(q@),
                    None => None,
                },
            );
            target@ == if http_path_and_query_accepted(wanted) {
                wanted
            } else {
                "/dav/"@ + app_id@
            }
        }),
{
    let wanted = dav_path_and_query(tail, query);
    let accepted = uri_path_accepted(wanted.as_str());
    target_or_app_root(app_id, wanted, accepted)
}

/// The wanted path and query where it is accepted, and otherwise the
/// application's root `/dav/{app_id}`.
pub fn target_or_app_root(app_id: &str, wanted: String, accepted: bool) -> (target: String)
    ensures
        target@ == if accepted {
            wanted@
        } else {
            "/dav/"@ + app_id@
        },
{
    if accepted {
        wanted
    } else {
        let mut fallback = String::from_str("/dav/");
        fallback.append(app_id);
        fallback
    }
}

/// Why a WebDAV request was refused.
#[derive(Debug, Clone)]
pub enum DavRefusal {
    /// The application is not configured: 404.
    AppNotFound,
    /// No valid credentials: 401 with a `Basic` challenge.
    Unauthorized,
    /// The store could not be read: 500 with the error's text.
    Internal(String),
}

/// The reply to a refused WebDAV request: a status, a text body, and the
/// `WWW-Authenticate` challenge where credentials are asked for.
#[derive(Debug, Clone)]
pub struct DavReply {
    pub status: u16,
    pub body: String,
    pub www_authenticate: Option<String>,
}

/// How a refusal is answered: 404 `app not found`; 401 `please auth` with the
/// challenge `Basic realm="dwebCloud"`; 500 with the text of the error.
pub fn refusal_reply(refusal: &DavRefusal) -> (reply: DavReply)
    ensures
        match refusal {
            DavRefusal::AppNotFound => reply.status == 404 && reply.body@ == "app not found"@
                && reply.www_authenticate is None,
            DavRefusal::Unauthorized => reply.status == 401 && reply.body@ == "please auth"@
                && (reply.www_authenticate matches Some(value) && value@
                == "Basic realm=\"dwebCloud\""@),
            DavRefusal::Internal(text) => reply.status == 500 && reply.body@ == text@
                && reply.www_authenticate is None,
        },
{
    match refusal {
        DavRefusal::AppNotFound => DavReply {
            status: 404,
            body: String::from_str("app not found"),
            www_authenticate: None,
        },
        DavRefusal::Unauthorized => DavReply {
            status: 401,
            body: String::from_str("please auth"),
            www_authenticate: Some(String::from_str("Basic realm=\"dwebCloud\"")),
        },
        DavRefusal::Internal(text) => DavReply {
            status: 500,
            body: text.clone(),
            www_authenticate: None,
        },
    }
}

/// Some configured application has the id.
pub open spec fn app_configured(apps: Seq<AppConfig>, app_id: Seq<char>) -> bool {
    exists|i: int| 0 <= i < apps.len() && #[trigger] apps[i].app_id@ == app_id
}

pub fn app_exists(apps: &Vec<AppConfig>, app_id: &str) -> (found: bool)
    ensures
        found == app_configured(apps@, app_id@),
{
    let mut i: usize = 0;
    while i < apps.len()
        invariant
            i <= apps@.len(),
            forall|k: int| 0 <= k < i ==> apps@[k].app_id@ != app_id@,
        decreases apps@.len() - i,
    {
        if text_eq(apps[i].app_id.as_str(), app_id) {
            return true;
        }
        i = i + 1;
    }
    false
}

/// What can be refused before the store is read: an application that is not
/// configured, and a request without `Basic` credentials. Where this refuses,
/// `authorize_dav_request` refuses alike, whatever the store holds.
pub fn precheck_dav_request(apps: &Vec<AppConfig>, app_id: &str, authorization: Option<&str>) -> (r:
    Option<DavRefusal>)
    ensures
        !app_configured(apps@, app_id@) ==> r matches Some(DavRefusal::AppNotFound),
        app_configured(apps@, app_id@) ==> match authorization {
            None => r matches Some(DavRefusal::Unauthorized),
            Some(header) => match basic_credentials(header@) {
                None => r matches Some(DavRefusal::Unauthorized),
                Some(_) => r is None,
            },
        },
{
    if !app_exists(apps, app_id) {
        return Some(DavRefusal::AppNotFound);
    }
    match parse_basic_auth(authorization) {
        Some(_) => None,
        None => Some(DavRefusal::Unauthorized),
    }
}

/// Decides whether a WebDAV request for an application space is let in: the
/// application must be configured, the request must carry `Basic`
/// credentials, and they must be an account's public key and a password that
/// a token of that account and application admits at `now_ms`.
pub fn authorize_dav_request(
    store: &FileStore,
    apps: &Vec<AppConfig>,
    app_id: &str,
    authorization: Option<&str>,
    now_ms: i64,
) -> (r: Result<TokenRecord, DavRefusal>)
    requires
        store.wf(),
    ensures
        !app_configured(apps@, app_id@) ==> r matches Err(DavRefusal::AppNotFound),
        app_configured(apps@, app_id@) ==> match authorization {
            None => r matches Err(DavRefusal::Unauthorized),
            Some(header) => match basic_credentials(header@) {
                None => r matches Err(DavRefusal::Unauthorized),
                Some((user, password)) => match first_admitted(
                    store.token_entries(),
                    user,
                    app_id@,
                    password_hash_hex(password),
                    now_ms,
                ) {
                    None => r matches Err(DavRefusal::Unauthorized),
                    Some(token) => r == Ok::<TokenRecord, DavRefusal>(token),
                },
            },
        },
{
    if !app_exists(apps, app_id) {
        return Err(DavRefusal::AppNotFound);
    }
    let (user, password) = match parse_basic_auth(authorization) {
        Some(credentials) => credentials,
        None => return Err(DavRefusal::Unauthorized),
    };
    match store.authenticate_token(user.as_str(), app_id, password.as_str(), now_ms) {
        Ok(Some(token)) => Ok(token),
        Ok(None) => Err(DavRefusal::Unauthorized),
        Err(error) => Err(DavRefusal::Internal(error.message())),
    }
}

} // verus!
