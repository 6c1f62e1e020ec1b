//! The token store: challenges, tokens and application spaces kept under a
//! data directory. The store holds the directory's contents as values; the
//! program around the library reads them from disk and writes back what changed.

use vstd::prelude::*;
use vstd::utf8::encode_utf8;
use crate::crypto::{
    is_uuid_v4_text, random_bytes, sha256_digest, sha256_spec, uuid_from_bytes, uuid_v4_text,
};
use crate::entries::{
    entries_of, find_name, has_name, lemma_position_unique, lookup, names_unique, position_of,
    put_file, remove_name, take_file, upsert, StoredFile, lemma_upsert_unique, lemma_remove_unique,
};
use crate::hexcodec::{hex_encode, hex_encode_spec};
use crate::ordering::{is_ordered, lemma_insert_ordered_at, sort_ordered};
use crate::store_laws::{law_account_apps_sorted, law_account_apps_unique};
use crate::records::{
    count_status, count_tokens, lemma_status_partition, AccountOverview, ChallengeRecord,
    IssuedToken, StorageError, StoreStats, TokenRecord, TokenStatus,
};
use crate::text::{path_join, path_join_spec, text_eq};

verus! {

/// The directory of an account: its name, and the names of its application spaces.
pub type AccountSpace = StoredFile<Vec<String>>;

/// The accounts, each as its name and its application names.
pub open spec fn spaces_of(accounts: Seq<AccountSpace>) -> Seq<(Seq<char>, Seq<Seq<char>>)> {
    Seq::new(accounts.len(), |i: int| (accounts[i].name@, texts_of(accounts[i].record@)))
}

pub open spec fn texts_of(texts: Seq<String>) -> Seq<Seq<char>> {
    texts.map_values(|t: String| t@)
}

pub open spec fn texts_unique(texts: Seq<Seq<char>>) -> bool {
    forall|i: int, j: int| 0 <= i < j < texts.len() ==> texts[i] != texts[j]
}

/// Makes sure that the account has the application space: the account is
/// added at the end if missing, and the application after its others.
pub open spec fn with_app_space(
    spaces: Seq<(Seq<char>, Seq<Seq<char>>)>,
    public_key_hex: Seq<char>,
    app_id: Seq<char>,
) -> Seq<(Seq<char>, Seq<Seq<char>>)> {
    if has_name(spaces, public_key_hex) {
        let apps = spaces[position_of(spaces, public_key_hex)].1;
        if apps.contains(app_id) {
            spaces
        } else {
            spaces.update(position_of(spaces, public_key_hex), (public_key_hex, apps.push(app_id)))
        }
    } else {
        spaces.push((public_key_hex, seq![app_id]))
    }
}

/// After making sure of an application space, the account has it.
pub proof fn lemma_with_app_space(
    spaces: Seq<(Seq<char>, Seq<Seq<char>>)>,
    public_key_hex: Seq<char>,
    app_id: Seq<char>,
)
    requires
        names_unique(spaces),
    ensures
        lookup(with_app_space(spaces, public_key_hex, app_id), public_key_hex) matches Some(apps)
            && apps.contains(app_id),
{
    let out = with_app_space(spaces, public_key_hex, app_id);
    if has_name(spaces, public_key_hex) {
        let p = position_of(spaces, public_key_hex);
        let apps = spaces[p].1;
        if !apps.contains(app_id) {
            assert(apps.push(app_id)[apps.len() as int] == app_id);
            assert forall|i: int, j: int| 0 <= i < j < out.len() implies out[i].0 != out[j].0 by {
                assert(out[i].0 == spaces[i].0 && out[j].0 == spaces[j].0);
            }
        }
        lemma_position_unique(out, public_key_hex, p);
    } else {
        assert forall|i: int, j: int| 0 <= i < j < out.len() implies out[i].0 != out[j].0 by {
            if j == spaces.len() {
                assert(spaces[i].0 != public_key_hex);
            }
        }
        assert(seq![app_id][0] == app_id);
        lemma_position_unique(out, public_key_hex, spaces.len() as int);
    }
}

/// `{data_dir}/accounts/{public_key_hex}/apps/{app_id}`, joined as paths.
pub open spec fn app_dir_spec(data_dir: Seq<char>, public_key_hex: Seq<char>, app_id: Seq<char>) -> Seq<char> {
    path_join_spec(
        path_join_spec(path_join_spec(path_join_spec(data_dir, "accounts"@), public_key_hex), "apps"@),
        app_id,
    )
}

/// What issuing a token from drawn bytes does: the token's id is the random
/// UUID of the id bytes, its password the hexadecimal of the password bytes,
/// only the password's digest is kept, the token is stored under its id and
/// the account is given the application space; nothing else changes.
pub open spec fn issued_from(
    before: FileStore,
    after: FileStore,
    issued: IssuedToken,
    id_bytes: Seq<u8>,
    bytes: Seq<u8>,
    public_key_hex: Seq<char>,
    app_id: Seq<char>,
    created_at_ms: i64,
    expires_at_ms: i64,
) -> bool {
    &&& issued.record.token_id@ == uuid_v4_text(id_bytes)
    &&& issued.password@ == hex_encode_spec(bytes)
    &&& issued.record.token_hash_hex@ == password_hash_hex(issued.password@)
    &&& issued.record.public_key_hex@ == public_key_hex
    &&& issued.record.app_id@ == app_id
    &&& issued.record.created_at_ms == created_at_ms
    &&& issued.record.expires_at_ms == expires_at_ms
    &&& !issued.record.revoked
    &&& after.token_entries() == upsert(
        before.token_entries(),
        file_name(issued.record.token_id@),
        issued.record,
    )
    &&& after.spaces() == with_app_space(before.spaces(), public_key_hex, app_id)
    &&& after.challenge_entries() == before.challenge_entries()
    &&& after.dir() == before.dir()
}

/// The name of the file that holds a record: its key and `.json`.
pub open spec fn file_name(key: Seq<char>) -> Seq<char> {
    key + ".json"@
}

/// The lowercase hexadecimal SHA-256 digest of the UTF-8 bytes of a password.
pub open spec fn password_hash_hex(password: Seq<char>) -> Seq<char> {
    hex_encode_spec(sha256_spec(encode_utf8(password)))
}

/// A token lets in the account and application it is bound to, with the
/// password whose digest it keeps, unless revoked or expired before `now_ms`.
pub open spec fn admits(
    token: TokenRecord,
    public_key_hex: Seq<char>,
    app_id: Seq<char>,
    hash_hex: Seq<char>,
    now_ms: i64,
) -> bool {
    &&& token.public_key_hex@ == public_key_hex
    &&& token.app_id@ == app_id
    &&& token.token_hash_hex@ == hash_hex
    &&& !token.revoked
    &&& token.expires_at_ms >= now_ms
}

/// The first token, in listing order, that lets the request in.
pub open spec fn first_admitted(
    tokens: Seq<(Seq<char>, TokenRecord)>,
    public_key_hex: Seq<char>,
    app_id: Seq<char>,
    hash_hex: Seq<char>,
    now_ms: i64,
) -> Option<TokenRecord>
    decreases tokens.len(),
{
    if tokens.len() == 0 {
        None
    } else if admits(tokens[0].1, public_key_hex, app_id, hash_hex, now_ms) {
        Some(tokens[0].1)
    } else {
        first_admitted(tokens.drop_first(), public_key_hex, app_id, hash_hex, now_ms)
    }
}

/// The tokens of an account, optionally of one application, in listing order.
pub open spec fn tokens_of(
    tokens: Seq<(Seq<char>, TokenRecord)>,
    public_key_hex: Seq<char>,
    app_filter: Option<Seq<char>>,
) -> Seq<TokenRecord>
    decreases tokens.len(),
{
    if tokens.len() == 0 {
        Seq::empty()
    } else {
        let rest = tokens_of(tokens.drop_last(), public_key_hex, app_filter);
        let token = tokens.last().1;
        if token.public_key_hex@ == public_key_hex && match app_filter {
            None => true,
            Some(app_id) => token.app_id@ == app_id,
        } {
            rest.push(token)
        } else {
            rest
        }
    }
}

/// Newer tokens first; tokens created at the same time keep their order.
pub open spec fn newer_first() -> spec_fn(TokenRecord, TokenRecord) -> bool {
    |a: TokenRecord, b: TokenRecord| a.created_at_ms >= b.created_at_ms
}

/// The listing of an account's tokens: newest first.
pub open spec fn token_listing(
    tokens: Seq<(Seq<char>, TokenRecord)>,
    public_key_hex: Seq<char>,
    app_filter: Option<Seq<char>>,
) -> Seq<TokenRecord> {
    sort_ordered(tokens_of(tokens, public_key_hex, app_filter), newer_first())
}

/// Lexicographic order of texts by code point, which is the byte order of their
/// UTF-8 encodings and so the order of `String`.
pub open spec fn text_le(a: Seq<char>, b: Seq<char>) -> bool
    decreases a.len(),
{
    if a.len() == 0 {
        true
    } else if b.len() == 0 {
        false
    } else if a[0] != b[0] {
        (a[0] as u32) < (b[0] as u32)
    } else {
        text_le(a.drop_first(), b.drop_first())
    }
}

pub open spec fn text_order() -> spec_fn(Seq<char>, Seq<char>) -> bool {
    |a: Seq<char>, b: Seq<char>| text_le(a, b)
}

/// The application spaces of an account, sorted.
pub open spec fn account_apps(
    spaces: Seq<(Seq<char>, Seq<Seq<char>>)>,
    public_key_hex: Seq<char>,
) -> Seq<Seq<char>> {
    match lookup(spaces, public_key_hex) {
        Some(apps) => sort_ordered(apps, text_order()),
        None => Seq::empty(),
    }
}

/// The number of application spaces over all accounts.
pub open spec fn total_app_spaces(spaces: Seq<(Seq<char>, Seq<Seq<char>>)>) -> nat
    decreases spaces.len(),
{
    if spaces.len() == 0 {
        0
    } else {
        total_app_spaces(spaces.drop_last()) + spaces.last().1.len()
    }
}

/// A token record marked revoked.
pub open spec fn revoked_copy(token: TokenRecord) -> TokenRecord {
    TokenRecord {
        token_id: token.token_id,
        token_hash_hex: token.token_hash_hex,
        public_key_hex: token.public_key_hex,
        app_id: token.app_id,
        created_at_ms: token.created_at_ms,
        expires_at_ms: token.expires_at_ms,
        revoked: true,
    }
}

/// Revoking a token of an account: the file of the token is found by the
/// token's id, and it is revoked only where it belongs to the account.
pub open spec fn revoke_outcome(
    tokens: Seq<(Seq<char>, TokenRecord)>,
    public_key_hex: Seq<char>,
    token_id: Seq<char>,
) -> (Seq<(Seq<char>, TokenRecord)>, bool) {
    match lookup(tokens, file_name(token_id)) {
        Some(token) => if token.public_key_hex@ == public_key_hex {
            (upsert(tokens, file_name(token_id), revoked_copy(token)), true)
        } else {
            (tokens, false)
        },
        None => (tokens, false),
    }
}

/// A data directory's challenges, tokens and accounts.
pub struct FileStore {
    data_dir: String,
    challenges: Vec<StoredFile<ChallengeRecord>>,
    tokens: Vec<StoredFile<TokenRecord>>,
    accounts: Vec<AccountSpace>,
}

impl FileStore {
    /// The data directory.
    pub closed spec fn dir(self) -> Seq<char> {
        self.data_dir@
    }

    /// The challenge files, each as its name and its record, in listing order.
    pub closed spec fn challenge_entries(self) -> Seq<(Seq<char>, ChallengeRecord)> {
        entries_of(self.challenges@)
    }

    /// The token files, each as its name and its record, in listing order.
    pub closed spec fn token_entries(self) -> Seq<(Seq<char>, TokenRecord)> {
        entries_of(self.tokens@)
    }

    /// The account directories, each as its name and its application names.
    pub closed spec fn spaces(self) -> Seq<(Seq<char>, Seq<Seq<char>>)> {
        spaces_of(self.accounts@)
    }

    /// The names in each directory are unique.
    pub closed spec fn wf(self) -> bool {
        &&& names_unique(entries_of(self.challenges@))
        &&& names_unique(entries_of(self.tokens@))
        &&& names_unique(entries_of(self.accounts@))
        &&& forall|i: int|
            0 <= i < self.accounts@.len() ==> texts_unique(#[trigger] texts_of(self.accounts@[i].record@))
    }

    proof fn lemma_spaces_unique(self)
        requires
            self.wf(),
        ensures
            names_unique(self.spaces()),
    {
        let s = self.spaces();
        let e = entries_of(self.accounts@);
        assert forall|i: int, j: int| 0 <= i < j < s.len() implies s[i].0 != s[j].0 by {
            assert(s[i].0 == e[i].0 && s[j].0 == e[j].0);
        }
    }

    /// In a well-formed store, no two challenge files, token files or account
    /// directories share a name, and no account has two application spaces of
    /// one name.
    /// The stored tokens, in the order of their files.
    pub open spec fn token_records(self) -> Seq<TokenRecord> {
        Seq::new(self.token_entries().len(), |i: int| self.token_entries()[i].1)
    }

    pub proof fn lemma_wf_unique(self)
        requires
            self.wf(),
        ensures
            names_unique(self.challenge_entries()),
            names_unique(self.token_entries()),
            names_unique(self.spaces()),
            forall|i: int| 0 <= i < self.spaces().len() ==> texts_unique(#[trigger] self.spaces()[i].1),
    {
        self.lemma_spaces_unique();
        assert forall|i: int| 0 <= i < self.spaces().len() implies texts_unique(#[trigger] self.spaces()[i].1) by {
            assert(self.spaces()[i].1 == texts_of(self.accounts@[i].record@));
        }
    }

    /// An empty store for the data directory.
    pub fn new(data_dir: &str) -> (r: Result<FileStore, StorageError>)
        ensures
            r matches Ok(store) && {
                &&& store.wf()
                &&& store.dir() == data_dir@
                &&& store.challenge_entries().len() == 0
                &&& store.token_entries().len() == 0
                &&& store.spaces().len() == 0
            },
    {
        let store = FileStore {
            data_dir: String::from_str(data_dir),
            challenges: Vec::new(),
            tokens: Vec::new(),
            accounts: Vec::new(),
        };
        assert(store.challenge_entries() =~= Seq::empty());
        assert(store.token_entries() =~= Seq::empty());
        assert(store.spaces() =~= Seq::empty());
        Ok(store)
    }

    /// The data directory.
    pub fn data_dir(&self) -> (dir: &str)
        ensures
            dir@ == self.dir(),
    {
        self.data_dir.as_str()
    }

    /// `{data_dir}/challenges`.
    pub fn challenges_dir(&self) -> (path: String)
        ensures
            path@ == path_join_spec(self.dir(), "challenges"@),
    {
        path_join(self.data_dir.as_str(), "challenges")
    }

    /// `{data_dir}/tokens`.
    pub fn tokens_dir(&self) -> (path: String)
        ensures
            path@ == path_join_spec(self.dir(), "tokens"@),
    {
        path_join(self.data_dir.as_str(), "tokens")
    }

    /// `{data_dir}/accounts`.
    pub fn accounts_dir(&self) -> (path: String)
        ensures
            path@ == path_join_spec(self.dir(), "accounts"@),
    {
        path_join(self.data_dir.as_str(), "accounts")
    }

    /// `{data_dir}/challenges/{nonce}.json`.
    pub fn challenge_path(&self, nonce: &str) -> (path: String)
        ensures
            path@ == path_join_spec(path_join_spec(self.dir(), "challenges"@), file_name(nonce@)),
    {
        let name = json_file_name(nonce);
        path_join(self.challenges_dir().as_str(), name.as_str())
    }

    /// `{data_dir}/tokens/{token_id}.json`.
    pub fn token_path(&self, token_id: &str) -> (path: String)
        ensures
            path@ == path_join_spec(path_join_spec(self.dir(), "tokens"@), file_name(token_id@)),
    {
        let name = json_file_name(token_id);
        path_join(self.tokens_dir().as_str(), name.as_str())
    }

    /// `{data_dir}/accounts/{public_key_hex}/apps/{app_id}`: the directory that
    /// an account's application space is kept in.
    pub fn account_app_dir(&self, public_key_hex: &str, app_id: &str) -> (path: String)
        ensures
            path@ == app_dir_spec(self.dir(), public_key_hex@, app_id@),
    {
        let account = path_join(self.accounts_dir().as_str(), public_key_hex);
        let apps = path_join(account.as_str(), "apps");
        path_join(apps.as_str(), app_id)
    }
}

/// `{key}.json`.
pub fn json_file_name(key: &str) -> (name: String)
    ensures
        name@ == file_name(key@),
{
    let mut name = String::from_str(key);
    name.append(".json");
    name
}


/// The lowercase hexadecimal SHA-256 digest of the UTF-8 bytes of a text.
pub fn sha256_hex(text: &str) -> (hex: String)
    ensures
        hex@ == password_hash_hex(text@),
{
    let digest = sha256_digest(text.as_bytes());
    hex_encode(digest.as_slice())
}

/// The error of a failed random draw.
fn getrandom_failure(detail: String) -> (error: StorageError)
    ensures
        error matches StorageError::Io(message) && message@ == "getrandom failed: "@ + detail@,
{
    let mut message = String::from_str("getrandom failed: ");
    message.append(detail.as_str());
    StorageError::Io(message)
}

/// Whether the texts hold the text.
fn contains_text(texts: &Vec<String>, text: &str) -> (found: bool)
    ensures
        found == texts_of(texts@).contains(text@),
{
    let mut i: usize = 0;
    while i < texts.len()
        invariant
            i <= texts@.len(),
            forall|k: int| 0 <= k < i ==> texts_of(texts@)[k] != text@,
        decreases texts@.len() - i,
    {
        if text_eq(texts[i].as_str(), text) {
            assert(texts_of(texts@)[i as int] == text@);
            return true;
        }
        i = i + 1;
    }
    false
}

/// Whether `a` comes no later than `b` in text order.
pub fn text_le_exec(a: &str, b: &str) -> (le: bool)
    ensures
        le == text_le(a@, b@),
{
    let a_len = a.unicode_len();
    let b_len = b.unicode_len();
    let mut i: usize = 0;
    assert(a@.skip(0) =~= a@);
    assert(b@.skip(0) =~= b@);
    while i < a_len && i < b_len
        invariant
            a_len == a@.len(),
            b_len == b@.len(),
            i <= a_len,
            i <= b_len,
            text_le(a@, b@) == text_le(a@.skip(i as int), b@.skip(i as int)),
        decreases a_len - i,
    {
        let x = a.get_char(i);
        let y = b.get_char(i);
        if x != y {
            return (x as u32) < (y as u32);
        }
        assert(a@.skip(i as int).drop_first() =~= a@.skip(i + 1));
        assert(b@.skip(i as int).drop_first() =~= b@.skip(i + 1));
        i = i + 1;
    }
    i == a_len
}

/// The texts in text order.
fn sorted_texts(texts: &Vec<String>) -> (sorted: Vec<String>)
    ensures
        texts_of(sorted@) == sort_ordered(texts_of(texts@), text_order()),
{
    let mut sorted: Vec<String> = Vec::new();
    let mut i: usize = 0;
    while i < texts.len()
        invariant
            i <= texts@.len(),
            texts_of(sorted@) == sort_ordered(texts_of(texts@).subrange(0, i as int), text_order()),
        decreases texts@.len() - i,
    {
        let text = texts[i].clone();
        let mut p: usize = 0;
        while p < sorted.len() && text_le_exec(sorted[p].as_str(), text.as_str())
            invariant
                p <= sorted@.len(),
                forall|k: int| 0 <= k < p ==> text_order()(#[trigger] texts_of(sorted@)[k], text@),
            decreases sorted@.len() - p,
        {
            p = p + 1;
        }
        proof {
            lemma_insert_ordered_at(texts_of(sorted@), text@, text_order(), p as int);
            assert(texts_of(texts@).subrange(0, i + 1).drop_last() =~= texts_of(texts@).subrange(
                0,
                i as int,
            ));
        }
        let ghost before = sorted@;
        sorted.insert(p, text);
        assert(texts_of(sorted@) =~= texts_of(before).insert(p as int, text@));
        i = i + 1;
    }
    assert(texts_of(texts@).subrange(0, i as int) =~= texts_of(texts@));
    sorted
}

/// The tokens in newest-first order.
fn sorted_newest_first(tokens: &Vec<TokenRecord>) -> (sorted: Vec<TokenRecord>)
    ensures
        sorted@ == sort_ordered(tokens@, newer_first()),
{
    let mut sorted: Vec<TokenRecord> = Vec::new();
    let mut i: usize = 0;
    while i < tokens.len()
        invariant
            i <= tokens@.len(),
            sorted@ == sort_ordered(tokens@.subrange(0, i as int), newer_first()),
        decreases tokens@.len() - i,
    {
        let token = tokens[i].clone();
        let mut p: usize = 0;
        while p < sorted.len() && sorted[p].created_at_ms >= token.created_at_ms
            invariant
                p <= sorted@.len(),
                forall|k: int| 0 <= k < p ==> newer_first()(#[trigger] sorted@[k], token),
            decreases sorted@.len() - p,
        {
            p = p + 1;
        }
        proof {
            lemma_insert_ordered_at(sorted@, token, newer_first(), p as int);
            assert(tokens@.subrange(0, i + 1).drop_last() =~= tokens@.subrange(0, i as int));
        }
        sorted.insert(p, token);
        i = i + 1;
    }
    assert(tokens@.subrange(0, i as int) =~= tokens@);
    sorted
}

impl FileStore {
    /// Writes a challenge to `{nonce}.json`, replacing what was there. The
    /// nonce is taken as a file name inside the challenges directory.
    pub fn save_challenge(&mut self, record: &ChallengeRecord) -> (r: Result<(), StorageError>)
        requires
            old(self).wf(),
        ensures
            r is Ok,
            final(self).wf(),
            lookup(final(self).challenge_entries(), file_name(record.nonce@)) == Some(*record),
            final(self).challenge_entries() == upsert(
                old(self).challenge_entries(),
                file_name(record.nonce@),
                *record,
            ),
            final(self).token_entries() == old(self).token_entries(),
            final(self).spaces() == old(self).spaces(),
            final(self).dir() == old(self).dir(),
    {
        let name = json_file_name(record.nonce.as_str());
        proof {
            lemma_upsert_unique(self.challenge_entries(), name@, *record);
        }
        put_file(&mut self.challenges, name, record.clone());
        Ok(())
    }

    /// Removes the challenge written for the nonce and gives it; a challenge
    /// can be taken only once. The nonce is taken as a file name inside the
    /// challenges directory: a nonce that would name a path elsewhere (one
    /// holding `/`) finds no challenge here.
    pub fn take_challenge(&mut self, nonce: &str) -> (r: Result<Option<ChallengeRecord>, StorageError>)
        requires
            old(self).wf(),
        ensures
            lookup(final(self).challenge_entries(), file_name(nonce@)) is None,
            r == Ok::<Option<ChallengeRecord>, StorageError>(
                lookup(old(self).challenge_entries(), file_name(nonce@)),
            ),
            final(self).wf(),
            final(self).challenge_entries() == remove_name(
                old(self).challenge_entries(),
                file_name(nonce@),
            ),
            final(self).token_entries() == old(self).token_entries(),
            final(self).spaces() == old(self).spaces(),
            final(self).dir() == old(self).dir(),
    {
        let name = json_file_name(nonce);
        proof {
            lemma_remove_unique(self.challenge_entries(), name@);
        }
        let record = take_file(&mut self.challenges, name.as_str());
        Ok(record)
    }

    /// Makes sure that the account has the application space.
    fn ensure_app_space(&mut self, public_key_hex: &str, app_id: &str)
        requires
            old(self).wf(),
        ensures
            final(self).wf(),
            final(self).spaces() == with_app_space(old(self).spaces(), public_key_hex@, app_id@),
            final(self).challenge_entries() == old(self).challenge_entries(),
            final(self).token_entries() == old(self).token_entries(),
            final(self).dir() == old(self).dir(),
    {
        let ghost spaces = self.spaces();
        proof {
            self.lemma_spaces_unique();
        }
        match find_name(&self.accounts, public_key_hex) {
            Some(i) => {
                proof {
                    lemma_position_unique(spaces, public_key_hex@, i as int);
                }
                if !contains_text(&self.accounts[i].record, app_id) {
                    let ghost old_accounts = self.accounts@;
                    let mut account = self.accounts.remove(i);
                    account.record.push(String::from_str(app_id));
                    assert(texts_of(account.record@) =~= texts_of(old_accounts[i as int].record@).push(app_id@));
                    self.accounts.insert(i, account);
                    assert(self.accounts@ =~= old_accounts.update(i as int, account));
                    assert(self.spaces() =~= spaces.update(i as int, (public_key_hex@, spaces[i as int].1.push(app_id@))));
                    assert(entries_of(self.accounts@) =~= entries_of(old_accounts).update(i as int, (account.name@, account.record)));
                    assert forall|k: int| 0 <= k < self.accounts@.len() implies texts_unique(#[trigger] texts_of(self.accounts@[k].record@)) by {
                        if k == i {
                            let t = texts_of(account.record@);
                            assert forall|x: int, y: int| 0 <= x < y < t.len() implies t[x] != t[y] by {
                                if y == t.len() - 1 {
                                    assert(t[x] == texts_of(old_accounts[i as int].record@)[x]);
                                    assert(t[y] == app_id@);
                                } else {
                                    assert(t[x] == texts_of(old_accounts[i as int].record@)[x]);
                                    assert(t[y] == texts_of(old_accounts[i as int].record@)[y]);
                                }
                            }
                        }
                    }
                }
            },
            None => {
                assert(!has_name(spaces, public_key_hex@)) by {
                    if has_name(spaces, public_key_hex@) {
                        let k = choose|k: int| 0 <= k < spaces.len() && spaces[k].0 == public_key_hex@;
                        assert(entries_of(self.accounts@)[k].0 == spaces[k].0);
                    }
                }
                let mut apps: Vec<String> = Vec::new();
                apps.push(String::from_str(app_id));
                let ghost old_accounts = self.accounts@;
                let account = StoredFile { name: String::from_str(public_key_hex), record: apps };
                self.accounts.push(account);
                assert(texts_of(apps@) =~= seq![app_id@]);
                assert(self.spaces() =~= spaces.push((public_key_hex@, seq![app_id@])));
                assert(entries_of(self.accounts@) =~= entries_of(old_accounts).push((account.name@, account.record)));
                assert forall|x: int, y: int| 0 <= x < y < entries_of(self.accounts@).len() implies entries_of(self.accounts@)[x].0 != entries_of(self.accounts@)[y].0 by {
                    if y == old_accounts.len() {
                        assert(spaces[x].0 == entries_of(old_accounts)[x].0);
                    }
                }
                assert forall|k: int| 0 <= k < self.accounts@.len() implies texts_unique(#[trigger] texts_of(self.accounts@[k].record@)) by {
                    if k < old_accounts.len() {
                        assert(self.accounts@[k] == old_accounts[k]);
                    }
                }
            },
        }
    }
}


impl FileStore {
    /// Issues a token for an account and application: a random id and a
    /// random password, of which only the digest is kept. The token is written
    /// to `{token_id}.json` and the application space is made sure of. The
    /// id is made of 16 random bytes and the password of 24.
    pub fn issue_token(
        &mut self,
        public_key_hex: &str,
        app_id: &str,
        created_at_ms: i64,
        expires_at_ms: i64,
    ) -> (r: Result<IssuedToken, StorageError>)
        requires
            old(self).wf(),
        ensures
            final(self).wf(),
            match r {
                Ok(issued) => {
                    &&& exists|id_bytes: Seq<u8>, bytes: Seq<u8>|
                        id_bytes.len() == 16 && bytes.len() == 24 && #[trigger] issued_from(
                            *old(self),
                            *final(self),
                            issued,
                            id_bytes,
                            bytes,
                            public_key_hex@,
                            app_id@,
                            created_at_ms,
                            expires_at_ms,
                        )
                    &&& is_uuid_v4_text(issued.record.token_id@)
                    &&& issued.record.token_hash_hex@ == password_hash_hex(issued.password@)
                    &&& lookup(final(self).token_entries(), file_name(issued.record.token_id@))
                        == Some(issued.record)
                    &&& lookup(final(self).spaces(), public_key_hex@) matches Some(apps)
                        && apps.contains(app_id@)
                },
                Err(error) => error is Io && *final(self) == *old(self),
            },
    {
        let id_drawn = random_bytes(16);
        let password_drawn = random_bytes(24);
        self.issue_token_from(id_drawn, password_drawn, public_key_hex, app_id, created_at_ms, expires_at_ms)
    }

    /// Issues a token from drawn random bytes: the id is the random UUID of
    /// the 16 id bytes and the password the lowercase hexadecimal of the 24
    /// password bytes. Where a draw failed, nothing is issued and the store
    /// is unchanged.
    pub fn issue_token_from(
        &mut self,
        id_drawn: Result<Vec<u8>, String>,
        password_drawn: Result<Vec<u8>, String>,
        public_key_hex: &str,
        app_id: &str,
        created_at_ms: i64,
        expires_at_ms: i64,
    ) -> (r: Result<IssuedToken, StorageError>)
        requires
            old(self).wf(),
            id_drawn matches Ok(b) ==> b@.len() == 16,
            password_drawn matches Ok(b) ==> b@.len() == 24,
        ensures
            final(self).wf(),
            match (id_drawn, password_drawn) {
                (Ok(id_bytes), Ok(bytes)) => r matches Ok(issued) && issued_from(
                    *old(self),
                    *final(self),
                    issued,
                    id_bytes@,
                    bytes@,
                    public_key_hex@,
                    app_id@,
                    created_at_ms,
                    expires_at_ms,
                ) && is_uuid_v4_text(issued.record.token_id@)
                    && issued.record.token_hash_hex@ == password_hash_hex(issued.password@)
                    && lookup(final(self).token_entries(), file_name(issued.record.token_id@))
                    == Some(issued.record) && (lookup(final(self).spaces(), public_key_hex@) matches Some(
                    apps,
                ) && apps.contains(app_id@)),
                _ => r matches Err(error) && error is Io && *final(self) == *old(self),
            },
    {
        let id_bytes = match id_drawn {
            Ok(bytes) => bytes,
            Err(detail) => return Err(getrandom_failure(detail)),
        };
        let password_bytes = match password_drawn {
            Ok(bytes) => bytes,
            Err(detail) => return Err(getrandom_failure(detail)),
        };
        let token_id = uuid_from_bytes(id_bytes.as_slice());
        let password = hex_encode(password_bytes.as_slice());
        let record = TokenRecord {
            token_id: token_id.clone(),
            token_hash_hex: sha256_hex(password.as_str()),
            public_key_hex: String::from_str(public_key_hex),
            app_id: String::from_str(app_id),
            created_at_ms,
            expires_at_ms,
            revoked: false,
        };
        proof {
            self.lemma_wf_unique();
            lemma_with_app_space(self.spaces(), public_key_hex@, app_id@);
        }
        self.ensure_app_space(public_key_hex, app_id);
        let name = json_file_name(token_id.as_str());
        proof {
            lemma_upsert_unique(self.token_entries(), name@, record);
        }
        put_file(&mut self.tokens, name, record.clone());
        Ok(IssuedToken { password, record })
    }

    /// Finds the first token that lets the account into the application with
    /// the password at `now_ms`: bound to both, holding the password's digest,
    /// not revoked and not expired.
    pub fn authenticate_token(
        &self,
        public_key_hex: &str,
        app_id: &str,
        password: &str,
        now_ms: i64,
    ) -> (r: Result<Option<TokenRecord>, StorageError>)
        requires
            self.wf(),
        ensures
            r == Ok::<Option<TokenRecord>, StorageError>(
                first_admitted(
                    self.token_entries(),
                    public_key_hex@,
                    app_id@,
                    password_hash_hex(password@),
                    now_ms,
                ),
            ),
    {
        let expected_hash = sha256_hex(password);
        let ghost es = self.token_entries();
        let ghost hash = password_hash_hex(password@);
        let mut i: usize = 0;
        assert(es.skip(0) =~= es);
        while i < self.tokens.len()
            invariant
                es == entries_of(self.tokens@),
                expected_hash@ == hash,
                hash == password_hash_hex(password@),
                i <= self.tokens@.len(),
                first_admitted(es, public_key_hex@, app_id@, hash, now_ms) == first_admitted(
                    es.skip(i as int),
                    public_key_hex@,
                    app_id@,
                    hash,
                    now_ms,
                ),
            decreases self.tokens@.len() - i,
        {
            let token = &self.tokens[i].record;
            assert(es.skip(i as int)[0] == es[i as int]);
            if text_eq(token.public_key_hex.as_str(), public_key_hex) && text_eq(
                token.app_id.as_str(),
                app_id,
            ) && text_eq(token.token_hash_hex.as_str(), expected_hash.as_str()) && !token.revoked
                && token.expires_at_ms >= now_ms {
                assert(admits(es.skip(i as int)[0].1, public_key_hex@, app_id@, hash, now_ms));
                let found = token.clone();
                return Ok(Some(found));
            }
            assert(es.skip(i as int).drop_first() =~= es.skip(i + 1));
            i = i + 1;
        }
        assert(es.skip(i as int).len() == 0);
        Ok(None)
    }

    /// The tokens of an account, of one application where a filter is given,
    /// newest first; tokens created at the same time keep the listing order.
    pub fn list_tokens(&self, public_key_hex: &str, app_id_filter: Option<&str>) -> (r: Result<
        Vec<TokenRecord>,
        StorageError,
    >)
        requires
            self.wf(),
        ensures
            r matches Ok(tokens) && tokens@ == token_listing(
                self.token_entries(),
                public_key_hex@,
                match app_id_filter {
                    Some(app_id) => Some(app_id@),
                    None => None,
                },
            ),
    {
        let ghost es = self.token_entries();
        let ghost filter = match app_id_filter {
            Some(app_id) => Some(app_id@),
            None => None::<Seq<char>>,
        };
        let mut selected: Vec<TokenRecord> = Vec::new();
        let mut i: usize = 0;
        while i < self.tokens.len()
            invariant
                es == entries_of(self.tokens@),
                filter == match app_id_filter {
                    Some(app_id) => Some(app_id@),
                    None => None::<Seq<char>>,
                },
                i <= self.tokens@.len(),
                selected@ == tokens_of(es.subrange(0, i as int), public_key_hex@, filter),
            decreases self.tokens@.len() - i,
        {
            let token = &self.tokens[i].record;
            assert(es.subrange(0, i + 1).drop_last() =~= es.subrange(0, i as int));
            let app_matches = match app_id_filter {
                Some(app_id) => text_eq(token.app_id.as_str(), app_id),
                None => true,
            };
            if text_eq(token.public_key_hex.as_str(), public_key_hex) && app_matches {
                selected.push(token.clone());
            }
            i = i + 1;
        }
        assert(es.subrange(0, i as int) =~= es);
        Ok(sorted_newest_first(&selected))
    }

    /// Marks the token stored under the id as revoked, where it belongs to the
    /// account; says whether it did. The id is taken as a file name inside the
    /// tokens directory: an id that would name a path elsewhere (one holding
    /// `/`) finds no token here.
    pub fn revoke_token(&mut self, public_key_hex: &str, token_id: &str) -> (r: Result<
        bool,
        StorageError,
    >)
        requires
            old(self).wf(),
        ensures
            final(self).wf(),
            r == Ok::<bool, StorageError>(true) ==> (lookup(
                final(self).token_entries(),
                file_name(token_id@),
            ) matches Some(token) && token.revoked && token.public_key_hex@ == public_key_hex@),
            r == Ok::<bool, StorageError>(
                revoke_outcome(old(self).token_entries(), public_key_hex@, token_id@).1,
            ),
            final(self).token_entries() == revoke_outcome(
                old(self).token_entries(),
                public_key_hex@,
                token_id@,
            ).0,
            final(self).challenge_entries() == old(self).challenge_entries(),
            final(self).spaces() == old(self).spaces(),
            final(self).dir() == old(self).dir(),
    {
        let name = json_file_name(token_id);
        let ghost es = self.token_entries();
        match find_name(&self.tokens, name.as_str()) {
            None => Ok(false),
            Some(i) => {
                proof {
                    lemma_position_unique(es, name@, i as int);
                }
                let token = &self.tokens[i].record;
                if !text_eq(token.public_key_hex.as_str(), public_key_hex) {
                    return Ok(false);
                }
                let revoked = TokenRecord {
                    token_id: token.token_id.clone(),
                    token_hash_hex: token.token_hash_hex.clone(),
                    public_key_hex: token.public_key_hex.clone(),
                    app_id: token.app_id.clone(),
                    created_at_ms: token.created_at_ms,
                    expires_at_ms: token.expires_at_ms,
                    revoked: true,
                };
                proof {
                    lemma_upsert_unique(es, name@, revoked);
                }
                put_file(&mut self.tokens, name, revoked);
                Ok(true)
            },
        }
    }

    /// The application spaces of an account, sorted; none where the account
    /// has no directory.
    pub fn list_account_apps(&self, public_key_hex: &str) -> (r: Result<Vec<String>, StorageError>)
        requires
            self.wf(),
        ensures
            r matches Ok(apps) && texts_of(apps@) == account_apps(self.spaces(), public_key_hex@),
    {
        let ghost spaces = self.spaces();
        proof {
            self.lemma_spaces_unique();
        }
        match find_name(&self.accounts, public_key_hex) {
            Some(i) => {
                proof {
                    lemma_position_unique(spaces, public_key_hex@, i as int);
                }
                Ok(sorted_texts(&self.accounts[i].record))
            },
            None => {
                assert(!has_name(spaces, public_key_hex@)) by {
                    if has_name(spaces, public_key_hex@) {
                        let k = choose|k: int| 0 <= k < spaces.len() && spaces[k].0 == public_key_hex@;
                        assert(entries_of(self.accounts@)[k].0 == spaces[k].0);
                    }
                }
                let apps: Vec<String> = Vec::new();
                assert(texts_of(apps@) =~= Seq::empty());
                Ok(apps)
            },
        }
    }

    /// An account's application spaces and how many of its tokens are active,
    /// revoked and expired at `now_ms`.
    pub fn account_overview(&self, public_key_hex: &str, now_ms: i64) -> (r: Result<
        AccountOverview,
        StorageError,
    >)
        requires
            self.wf(),
        ensures
            r matches Ok(overview) && {
                let tokens = token_listing(self.token_entries(), public_key_hex@, None);
                &&& overview.public_key_hex@ == public_key_hex@
                &&& texts_of(overview.app_ids@) == account_apps(self.spaces(), public_key_hex@)
                &&& is_ordered(texts_of(overview.app_ids@), text_order())
                &&& texts_unique(texts_of(overview.app_ids@))
                &&& overview.token_count == tokens.len()
                &&& overview.active_token_count == count_status(tokens, now_ms, TokenStatus::Active)
                &&& overview.revoked_token_count == count_status(tokens, now_ms, TokenStatus::Revoked)
                &&& overview.expired_token_count == count_status(tokens, now_ms, TokenStatus::Expired)
                &&& overview.active_token_count + overview.revoked_token_count
                    + overview.expired_token_count == overview.token_count
            },
    {
        let app_ids = match self.list_account_apps(public_key_hex) {
            Ok(app_ids) => app_ids,
            Err(error) => return Err(error),
        };
        let tokens = match self.list_tokens(public_key_hex, None) {
            Ok(tokens) => tokens,
            Err(error) => return Err(error),
        };
        proof {
            lemma_status_partition(tokens@, now_ms);
            self.lemma_wf_unique();
            law_account_apps_sorted(self.spaces(), public_key_hex@);
            law_account_apps_unique(self.spaces(), public_key_hex@);
        }
        let revoked_token_count = count_tokens(&tokens, now_ms, TokenStatus::Revoked);
        let expired_token_count = count_tokens(&tokens, now_ms, TokenStatus::Expired);
        let active_token_count = count_tokens(&tokens, now_ms, TokenStatus::Active);
        Ok(AccountOverview {
            public_key_hex: String::from_str(public_key_hex),
            app_ids,
            token_count: tokens.len(),
            active_token_count,
            revoked_token_count,
            expired_token_count,
        })
    }

    /// Counts over the whole store at `now_ms`: accounts, application spaces,
    /// and tokens by status.
    pub fn store_stats(&self, now_ms: i64) -> (r: Result<StoreStats, StorageError>)
        requires
            self.wf(),
            total_app_spaces(self.spaces()) <= usize::MAX,
        ensures
            r matches Ok(stats) && {
                let tokens = self.token_records();
                &&& stats.account_count == self.spaces().len()
                &&& stats.app_space_count == total_app_spaces(self.spaces())
                &&& stats.token_count == tokens.len()
                &&& stats.active_token_count == count_status(tokens, now_ms, TokenStatus::Active)
                &&& stats.revoked_token_count == count_status(tokens, now_ms, TokenStatus::Revoked)
                &&& stats.expired_token_count == count_status(tokens, now_ms, TokenStatus::Expired)
                &&& stats.active_token_count + stats.revoked_token_count
                    + stats.expired_token_count == stats.token_count
            },
    {
        let ghost es = self.token_entries();
        let mut tokens: Vec<TokenRecord> = Vec::new();
        let mut i: usize = 0;
        while i < self.tokens.len()
            invariant
                es == entries_of(self.tokens@),
                i <= self.tokens@.len(),
                tokens@ == Seq::new(i as nat, |k: int| es[k].1),
            decreases self.tokens@.len() - i,
        {
            tokens.push(self.tokens[i].record.clone());
            assert(tokens@ =~= Seq::new((i + 1) as nat, |k: int| es[k].1));
            i = i + 1;
        }
        let ghost spaces = self.spaces();
        let mut app_space_count: usize = 0;
        let mut j: usize = 0;
        while j < self.accounts.len()
            invariant
                spaces == spaces_of(self.accounts@),
                total_app_spaces(spaces) <= usize::MAX,
                j <= self.accounts@.len(),
                app_space_count == total_app_spaces(spaces.subrange(0, j as int)),
            decreases self.accounts@.len() - j,
        {
            assert(spaces.subrange(0, j + 1).drop_last() =~= spaces.subrange(0, j as int));
            proof {
                lemma_total_prefix(spaces, j + 1);
            }
            app_space_count = app_space_count + self.accounts[j].record.len();
            j = j + 1;
        }
        assert(spaces.subrange(0, j as int) =~= spaces);
        proof {
            lemma_status_partition(tokens@, now_ms);
        }
        let revoked_token_count = count_tokens(&tokens, now_ms, TokenStatus::Revoked);
        let expired_token_count = count_tokens(&tokens, now_ms, TokenStatus::Expired);
        let active_token_count = count_tokens(&tokens, now_ms, TokenStatus::Active);
        Ok(StoreStats {
            account_count: self.accounts.len(),
            app_space_count,
            token_count: tokens.len(),
            active_token_count,
            revoked_token_count,
            expired_token_count,
        })
    }
}

/// A prefix holds no more application spaces than the whole.
proof fn lemma_total_prefix(spaces: Seq<(Seq<char>, Seq<Seq<char>>)>, n: int)
    requires
        0 <= n <= spaces.len(),
    ensures
        total_app_spaces(spaces.subrange(0, n)) <= total_app_spaces(spaces),
    decreases spaces.len() - n,
{
    if n < spaces.len() {
        lemma_total_prefix(spaces, n + 1);
        assert(spaces.subrange(0, n + 1).drop_last() =~= spaces.subrange(0, n));
    } else {
        assert(spaces.subrange(0, n) =~= spaces);
    }
}


/// Whether no two files share a name.
fn names_are_unique<R>(files: &Vec<StoredFile<R>>) -> (unique: bool)
    ensures
        unique == names_unique(entries_of(files@)),
{
    let ghost es = entries_of(files@);
    let mut j: usize = 0;
    while j < files.len()
        invariant
            es == entries_of(files@),
            j <= files@.len(),
            forall|a: int, b: int| 0 <= a < b < j ==> es[a].0 != es[b].0,
        decreases files@.len() - j,
    {
        let mut i: usize = 0;
        while i < j
            invariant
                es == entries_of(files@),
                i <= j < files@.len(),
                forall|a: int| 0 <= a < i ==> es[a].0 != es[j as int].0,
            decreases j - i,
        {
            if text_eq(files[i].name.as_str(), files[j].name.as_str()) {
                assert(es[i as int].0 == es[j as int].0);
                return false;
            }
            i = i + 1;
        }
        j = j + 1;
    }
    true
}

/// Whether no text occurs twice.
fn texts_are_unique(texts: &Vec<String>) -> (unique: bool)
    ensures
        unique == texts_unique(texts_of(texts@)),
{
    let ghost ts = texts_of(texts@);
    let mut j: usize = 0;
    while j < texts.len()
        invariant
            ts == texts_of(texts@),
            j <= texts@.len(),
            forall|a: int, b: int| 0 <= a < b < j ==> ts[a] != ts[b],
        decreases texts@.len() - j,
    {
        let mut i: usize = 0;
        while i < j
            invariant
                ts == texts_of(texts@),
                i <= j < texts@.len(),
                forall|a: int| 0 <= a < i ==> ts[a] != ts[j as int],
            decreases j - i,
        {
            if text_eq(texts[i].as_str(), texts[j].as_str()) {
                assert(ts[i as int] == ts[j as int]);
                return false;
            }
            i = i + 1;
        }
        j = j + 1;
    }
    true
}

impl FileStore {
    /// A store holding the contents read from a data directory; none where a
    /// directory would hold two entries of one name.
    pub fn from_contents(
        data_dir: &str,
        challenges: Vec<StoredFile<ChallengeRecord>>,
        tokens: Vec<StoredFile<TokenRecord>>,
        accounts: Vec<AccountSpace>,
    ) -> (r: Option<FileStore>)
        ensures
            match r {
                Some(store) => {
                    &&& store.wf()
                    &&& store.dir() == data_dir@
                    &&& store.challenge_entries() == entries_of(challenges@)
                    &&& store.token_entries() == entries_of(tokens@)
                    &&& store.spaces() == spaces_of(accounts@)
                },
                None => !{
                    &&& names_unique(entries_of(challenges@))
                    &&& names_unique(entries_of(tokens@))
                    &&& names_unique(entries_of(accounts@))
                    &&& forall|i: int|
                        0 <= i < accounts@.len() ==> texts_unique(#[trigger] texts_of(accounts@[i].record@))
                },
            },
    {
        if !names_are_unique(&challenges) || !names_are_unique(&tokens) || !names_are_unique(
            &accounts,
        ) {
            return None;
        }
        let mut k: usize = 0;
        while k < accounts.len()
            invariant
                k <= accounts@.len(),
                forall|i: int| 0 <= i < k ==> texts_unique(#[trigger] texts_of(accounts@[i].record@)),
            decreases accounts@.len() - k,
        {
            if !texts_are_unique(&accounts[k].record) {
                return None;
            }
            k = k + 1;
        }
        Some(FileStore { data_dir: String::from_str(data_dir), challenges, tokens, accounts })
    }
}

} // verus!
