//! What holds of the store across its operations. Laws that ask for unique
//! names hold of every well-formed store: `FileStore::lemma_wf_unique` gives
//! them from `wf`.

use vstd::prelude::*;
use crate::entries::{
    has_name, lemma_position_unique, lemma_remove_unique, lemma_upsert_unique, lookup, names_unique,
    position_of, remove_name, upsert,
};
use crate::ordering::{is_ordered, lemma_sort_ordered, sort_ordered, total_preorder};
use crate::records::{count_status, status_of, ChallengeRecord, TokenRecord, TokenStatus};
use crate::dav::lemma_index_of;
use crate::text::path_join_spec;
use crate::store::{
    FileStore,
    app_dir_spec, account_apps, texts_unique, text_le, text_order,
    admits, file_name, first_admitted, newer_first, password_hash_hex, revoke_outcome,
    revoked_copy, token_listing, tokens_of,
};

verus! {

/// A challenge saved for a nonce is what taking that nonce gives back.
pub proof fn law_take_gives_saved(
    challenges: Seq<(Seq<char>, ChallengeRecord)>,
    record: ChallengeRecord,
)
    requires
        names_unique(challenges),
    ensures
        lookup(upsert(challenges, file_name(record.nonce@), record), file_name(record.nonce@))
            == Some(record),
{
    lemma_upsert_unique(challenges, file_name(record.nonce@), record);
}

/// A challenge can be taken only once: after it is taken, taking the same
/// nonce again gives nothing.
pub proof fn law_challenge_taken_once(challenges: Seq<(Seq<char>, ChallengeRecord)>, nonce: Seq<char>)
    requires
        names_unique(challenges),
    ensures
        lookup(remove_name(challenges, file_name(nonce)), file_name(nonce)) is None,
{
    lemma_remove_unique(challenges, file_name(nonce));
}

proof fn lemma_first_admitted_found(
    tokens: Seq<(Seq<char>, TokenRecord)>,
    public_key_hex: Seq<char>,
    app_id: Seq<char>,
    hash_hex: Seq<char>,
    now_ms: i64,
    k: int,
)
    requires
        0 <= k < tokens.len(),
        admits(tokens[k].1, public_key_hex, app_id, hash_hex, now_ms),
    ensures
        first_admitted(tokens, public_key_hex, app_id, hash_hex, now_ms) is Some,
    decreases k,
{
    if k > 0 && !admits(tokens[0].1, public_key_hex, app_id, hash_hex, now_ms) {
        assert(tokens.drop_first()[k - 1] == tokens[k]);
        lemma_first_admitted_found(tokens.drop_first(), public_key_hex, app_id, hash_hex, now_ms, k - 1);
    }
}

/// Only a token that is bound to the account and application, holds the
/// password's digest, and is neither revoked nor expired lets a request in.
pub proof fn law_admitted_token_is_valid(
    tokens: Seq<(Seq<char>, TokenRecord)>,
    public_key_hex: Seq<char>,
    app_id: Seq<char>,
    hash_hex: Seq<char>,
    now_ms: i64,
)
    ensures
        first_admitted(tokens, public_key_hex, app_id, hash_hex, now_ms) matches Some(token)
            ==> admits(token, public_key_hex, app_id, hash_hex, now_ms),
    decreases tokens.len(),
{
    if tokens.len() > 0 && !admits(tokens[0].1, public_key_hex, app_id, hash_hex, now_ms) {
        law_admitted_token_is_valid(tokens.drop_first(), public_key_hex, app_id, hash_hex, now_ms);
    }
}

/// A token just issued lets its account into its application with its
/// password, until it expires.
pub proof fn law_issued_token_authenticates(
    tokens: Seq<(Seq<char>, TokenRecord)>,
    token: TokenRecord,
    password: Seq<char>,
    now_ms: i64,
)
    requires
        names_unique(tokens),
        !token.revoked,
        token.token_hash_hex@ == password_hash_hex(password),
        now_ms <= token.expires_at_ms,
    ensures
        first_admitted(
            upsert(tokens, file_name(token.token_id@), token),
            token.public_key_hex@,
            token.app_id@,
            password_hash_hex(password),
            now_ms,
        ) is Some,
{
    let name = file_name(token.token_id@);
    let out = upsert(tokens, name, token);
    lemma_upsert_unique(tokens, name, token);
    let k = if has_name(tokens, name) {
        position_of(tokens, name)
    } else {
        tokens.len() as int
    };
    assert(out[k].1 == token);
    lemma_first_admitted_found(
        out,
        token.public_key_hex@,
        token.app_id@,
        password_hash_hex(password),
        now_ms,
        k,
    );
}

/// Once a token is revoked, it lets no request in again.
pub proof fn law_revoked_token_refused(
    tokens: Seq<(Seq<char>, TokenRecord)>,
    public_key_hex: Seq<char>,
    token_id: Seq<char>,
)
    requires
        names_unique(tokens),
        revoke_outcome(tokens, public_key_hex, token_id).1,
    ensures
        ({
            let revoked = revoke_outcome(tokens, public_key_hex, token_id).0;
            &&& lookup(revoked, file_name(token_id)) matches Some(token) && token.revoked
            &&& forall|key: Seq<char>, app_id: Seq<char>, hash_hex: Seq<char>, now_ms: i64|
                #[trigger] first_admitted(revoked, key, app_id, hash_hex, now_ms) matches Some(
                    token,
                ) ==> !token.revoked
        }),
{
    let name = file_name(token_id);
    let token = lookup(tokens, name)->0;
    lemma_upsert_unique(tokens, name, revoked_copy(token));
    let revoked = revoke_outcome(tokens, public_key_hex, token_id).0;
    assert forall|key: Seq<char>, app_id: Seq<char>, hash_hex: Seq<char>, now_ms: i64|
        #[trigger] first_admitted(revoked, key, app_id, hash_hex, now_ms) matches Some(found)
            ==> !found.revoked by {
        law_admitted_token_is_valid(revoked, key, app_id, hash_hex, now_ms);
    }
}

/// `newer_first` ranks every two tokens and is transitive.
pub proof fn lemma_newer_first_total()
    ensures
        total_preorder(newer_first()),
{
}

/// The tokens selected for an account all belong to it, and to the
/// application where one is asked for.
pub proof fn lemma_tokens_of_selected(
    tokens: Seq<(Seq<char>, TokenRecord)>,
    public_key_hex: Seq<char>,
    app_filter: Option<Seq<char>>,
)
    ensures
        forall|i: int|
            0 <= i < tokens_of(tokens, public_key_hex, app_filter).len() ==> {
                let token = #[trigger] tokens_of(tokens, public_key_hex, app_filter)[i];
                &&& token.public_key_hex@ == public_key_hex
                &&& app_filter matches Some(app_id) ==> token.app_id@ == app_id
            },
    decreases tokens.len(),
{
    if tokens.len() > 0 {
        lemma_tokens_of_selected(tokens.drop_last(), public_key_hex, app_filter);
        let rest = tokens_of(tokens.drop_last(), public_key_hex, app_filter);
        assert forall|i: int| 0 <= i < rest.len() implies rest.push(tokens.last().1)[i] == rest[i] by {
        }
    }
}

/// A token listing is newest first, holds only tokens of the account (and of
/// the application where one is asked for), and holds each of them once.
pub proof fn law_token_listing(
    tokens: Seq<(Seq<char>, TokenRecord)>,
    public_key_hex: Seq<char>,
    app_filter: Option<Seq<char>>,
)
    ensures
        ({
            let selected = tokens_of(tokens, public_key_hex, app_filter);
            let listing = token_listing(tokens, public_key_hex, app_filter);
            &&& is_ordered(listing, newer_first())
            &&& listing.to_multiset() == selected.to_multiset()
            &&& forall|t: TokenRecord| #[trigger]
                listing.contains(t) ==> t.public_key_hex@ == public_key_hex && (app_filter matches Some(
                    app_id,
                ) ==> t.app_id@ == app_id)
        }),
{
    broadcast use vstd::seq_lib::group_to_multiset_ensures;

    let selected = tokens_of(tokens, public_key_hex, app_filter);
    lemma_newer_first_total();
    lemma_sort_ordered(selected, newer_first());
    lemma_tokens_of_selected(tokens, public_key_hex, app_filter);
    let listing = token_listing(tokens, public_key_hex, app_filter);
    assert forall|t: TokenRecord| #[trigger] listing.contains(t) implies t.public_key_hex@
        == public_key_hex && (app_filter matches Some(app_id) ==> t.app_id@ == app_id) by {
        assert(listing.to_multiset().count(t) > 0);
        assert(selected.contains(t));
    }
}


proof fn lemma_text_le_total(a: Seq<char>, b: Seq<char>)
    ensures
        text_le(a, b) || text_le(b, a),
    decreases a.len(),
{
    if a.len() > 0 && b.len() > 0 {
        if a[0] == b[0] {
            lemma_text_le_total(a.drop_first(), b.drop_first());
        } else {
            vstd::utf8::char_u32_cast(a[0], a[0] as u32);
            vstd::utf8::char_u32_cast(b[0], b[0] as u32);
        }
    }
}

proof fn lemma_text_le_transitive(a: Seq<char>, b: Seq<char>, c: Seq<char>)
    requires
        text_le(a, b),
        text_le(b, c),
    ensures
        text_le(a, c),
    decreases a.len(),
{
    if a.len() > 0 && b.len() > 0 && c.len() > 0 && a[0] == b[0] && b[0] == c[0] {
        lemma_text_le_transitive(a.drop_first(), b.drop_first(), c.drop_first());
    }
}

/// Text order ranks every two texts and is transitive.
pub proof fn lemma_text_order_total()
    ensures
        total_preorder(text_order()),
{
    assert forall|a: Seq<char>, b: Seq<char>| #[trigger] text_order()(a, b) || text_order()(b, a) by {
        lemma_text_le_total(a, b);
    }
    assert forall|a: Seq<char>, b: Seq<char>, c: Seq<char>|
        #[trigger] text_order()(a, b) && #[trigger] text_order()(b, c) implies text_order()(a, c) by {
        lemma_text_le_transitive(a, b, c);
    }
}

/// The application spaces of an account are listed in text order, each of
/// them once.
pub proof fn law_account_apps_sorted(
    spaces: Seq<(Seq<char>, Seq<Seq<char>>)>,
    public_key_hex: Seq<char>,
)
    ensures
        is_ordered(account_apps(spaces, public_key_hex), text_order()),
        lookup(spaces, public_key_hex) matches Some(apps) ==> account_apps(
            spaces,
            public_key_hex,
        ).to_multiset() == apps.to_multiset(),
{
    lemma_text_order_total();
    if let Some(apps) = lookup(spaces, public_key_hex) {
        lemma_sort_ordered(apps, text_order());
    }
}


/// A listing runs from the newest token to the oldest: every token was
/// created no earlier than each token after it.
pub proof fn law_listing_newest_first(
    tokens: Seq<(Seq<char>, TokenRecord)>,
    public_key_hex: Seq<char>,
    app_filter: Option<Seq<char>>,
)
    ensures
        ({
            let listing = token_listing(tokens, public_key_hex, app_filter);
            forall|i: int, j: int|
                0 <= i < j < listing.len() ==> (#[trigger] listing[i]).created_at_ms
                    >= (#[trigger] listing[j]).created_at_ms
        }),
{
    law_token_listing(tokens, public_key_hex, app_filter);
}

/// A listing holds every stored token of the account (and of the
/// application, where one is asked for), and no other.
pub proof fn law_listing_complete(
    tokens: Seq<(Seq<char>, TokenRecord)>,
    public_key_hex: Seq<char>,
    app_filter: Option<Seq<char>>,
)
    ensures
        forall|k: int|
            0 <= k < tokens.len() && (#[trigger] tokens[k]).1.public_key_hex@ == public_key_hex && (
            app_filter matches Some(app_id) ==> tokens[k].1.app_id@ == app_id) ==> token_listing(
                tokens,
                public_key_hex,
                app_filter,
            ).contains(tokens[k].1),
        forall|t: TokenRecord| #[trigger]
            token_listing(tokens, public_key_hex, app_filter).contains(t) ==> t.public_key_hex@
                == public_key_hex && (app_filter matches Some(app_id) ==> t.app_id@ == app_id),
{
    broadcast use vstd::seq_lib::group_to_multiset_ensures;

    law_token_listing(tokens, public_key_hex, app_filter);
    let selected = tokens_of(tokens, public_key_hex, app_filter);
    let listing = token_listing(tokens, public_key_hex, app_filter);
    assert forall|k: int|
        0 <= k < tokens.len() && (#[trigger] tokens[k]).1.public_key_hex@ == public_key_hex && (
        app_filter matches Some(app_id) ==> tokens[k].1.app_id@ == app_id) implies listing.contains(
        tokens[k].1,
    ) by {
        lemma_tokens_of_contains(tokens, public_key_hex, app_filter, k);
        assert(selected.to_multiset().count(tokens[k].1) > 0);
        assert(listing.to_multiset().count(tokens[k].1) > 0);
    }
}

/// No tokens count nothing, and one more token adds one to the count of its
/// own status and none to the others.
pub proof fn law_count_by_status(tokens: Seq<TokenRecord>, token: TokenRecord, now_ms: i64, status: TokenStatus)
    ensures
        count_status(Seq::<TokenRecord>::empty(), now_ms, status) == 0,
        count_status(tokens.push(token), now_ms, status) == count_status(tokens, now_ms, status) + (
        if status_of(token, now_ms) == status {
            1int
        } else {
            0int
        }),
{
    assert(tokens.push(token).drop_last() =~= tokens);
}

/// A revoked token is revoked at any time; any other token is active up to
/// and at its expiry time and expired after it.
pub proof fn law_status_by_expiry(token: TokenRecord, now_ms: i64)
    ensures
        token.revoked ==> status_of(token, now_ms) == TokenStatus::Revoked,
        !token.revoked ==> (status_of(token, now_ms) == TokenStatus::Active <==> now_ms
            <= token.expires_at_ms),
        !token.revoked ==> (status_of(token, now_ms) == TokenStatus::Expired <==> token.expires_at_ms
            < now_ms),
{
}

/// One more token that is not revoked and not yet past its expiry adds one
/// to the active tokens and none to the others.
pub proof fn law_live_token_counts_active(tokens: Seq<TokenRecord>, token: TokenRecord, now_ms: i64)
    requires
        !token.revoked,
        now_ms <= token.expires_at_ms,
    ensures
        count_status(tokens.push(token), now_ms, TokenStatus::Active) == count_status(
            tokens,
            now_ms,
            TokenStatus::Active,
        ) + 1,
        count_status(tokens.push(token), now_ms, TokenStatus::Expired) == count_status(
            tokens,
            now_ms,
            TokenStatus::Expired,
        ),
        count_status(tokens.push(token), now_ms, TokenStatus::Revoked) == count_status(
            tokens,
            now_ms,
            TokenStatus::Revoked,
        ),
{
    assert(tokens.push(token).drop_last() =~= tokens);
}

/// Where no account lists an application twice, the application ids of an
/// account come out with none twice.
pub proof fn law_account_apps_unique(
    spaces: Seq<(Seq<char>, Seq<Seq<char>>)>,
    public_key_hex: Seq<char>,
)
    requires
        forall|i: int| 0 <= i < spaces.len() ==> texts_unique(#[trigger] spaces[i].1),
    ensures
        texts_unique(account_apps(spaces, public_key_hex)),
{
    law_account_apps_sorted(spaces, public_key_hex);
    if let Some(apps) = lookup(spaces, public_key_hex) {
        let p = position_of(spaces, public_key_hex);
        assert(texts_unique(spaces[p].1));
        assert(apps.no_duplicates()) by {
            assert forall|i: int, j: int|
                0 <= i < apps.len() && 0 <= j < apps.len() && i != j implies apps[i] != apps[j] by {
                if i > j {
                    assert(apps[j] != apps[i]);
                }
            }
        }
        apps.lemma_multiset_has_no_duplicates();
        let sorted = account_apps(spaces, public_key_hex);
        sorted.lemma_multiset_has_no_duplicates_conv();
    }
}

/// Only the account that a token belongs to can revoke it: a revocation by
/// any other account changes nothing and reports so.
pub proof fn law_revoke_only_by_owner(
    tokens: Seq<(Seq<char>, TokenRecord)>,
    public_key_hex: Seq<char>,
    token_id: Seq<char>,
)
    requires
        lookup(tokens, file_name(token_id)) matches Some(token) && token.public_key_hex@
            != public_key_hex,
    ensures
        revoke_outcome(tokens, public_key_hex, token_id) == (tokens, false),
{
}


proof fn lemma_tokens_of_contains(
    tokens: Seq<(Seq<char>, TokenRecord)>,
    public_key_hex: Seq<char>,
    app_filter: Option<Seq<char>>,
    k: int,
)
    requires
        0 <= k < tokens.len(),
        tokens[k].1.public_key_hex@ == public_key_hex,
        app_filter matches Some(app_id) ==> tokens[k].1.app_id@ == app_id,
    ensures
        tokens_of(tokens, public_key_hex, app_filter).contains(tokens[k].1),
    decreases tokens.len(),
{
    let rest = tokens_of(tokens.drop_last(), public_key_hex, app_filter);
    if k == tokens.len() - 1 {
        assert(rest.push(tokens[k].1)[rest.len() as int] == tokens[k].1);
    } else {
        assert(tokens.drop_last()[k] == tokens[k]);
        lemma_tokens_of_contains(tokens.drop_last(), public_key_hex, app_filter, k);
        let i = choose|i: int| 0 <= i < rest.len() && rest[i] == tokens[k].1;
        let whole = tokens_of(tokens, public_key_hex, app_filter);
        if whole != rest {
            assert(whole == rest.push(tokens.last().1));
            assert(whole[i] == rest[i]);
        }
    }
}

/// A token just issued shows in its account's token listing, with or
/// without its application as filter.
pub proof fn law_issued_token_listed(
    tokens: Seq<(Seq<char>, TokenRecord)>,
    token: TokenRecord,
    app_filter: Option<Seq<char>>,
)
    requires
        app_filter matches Some(app_id) ==> token.app_id@ == app_id,
    ensures
        token_listing(
            upsert(tokens, file_name(token.token_id@), token),
            token.public_key_hex@,
            app_filter,
        ).contains(token),
{
    broadcast use vstd::seq_lib::group_to_multiset_ensures;

    let name = file_name(token.token_id@);
    let out = upsert(tokens, name, token);
    let k = if has_name(tokens, name) {
        position_of(tokens, name)
    } else {
        tokens.len() as int
    };
    assert(out[k].1 == token);
    lemma_tokens_of_contains(out, token.public_key_hex@, app_filter, k);
    let selected = tokens_of(out, token.public_key_hex@, app_filter);
    law_token_listing(out, token.public_key_hex@, app_filter);
    assert(selected.to_multiset().count(token) > 0);
}


proof fn lemma_first_admitted_witness(
    tokens: Seq<(Seq<char>, TokenRecord)>,
    public_key_hex: Seq<char>,
    app_id: Seq<char>,
    hash_hex: Seq<char>,
    now_ms: i64,
)
    ensures
        first_admitted(tokens, public_key_hex, app_id, hash_hex, now_ms) matches Some(token)
            ==> exists|k: int|
            0 <= k < tokens.len() && tokens[k].1 == token && admits(
                tokens[k].1,
                public_key_hex,
                app_id,
                hash_hex,
                now_ms,
            ),
    decreases tokens.len(),
{
    if tokens.len() > 0 {
        if admits(tokens[0].1, public_key_hex, app_id, hash_hex, now_ms) {
            assert(tokens[0].1 == tokens[0].1);
        } else {
            let rest = tokens.drop_first();
            lemma_first_admitted_witness(rest, public_key_hex, app_id, hash_hex, now_ms);
            if let Some(token) = first_admitted(rest, public_key_hex, app_id, hash_hex, now_ms) {
                let k = choose|k: int|
                    0 <= k < rest.len() && rest[k].1 == token && admits(
                        rest[k].1,
                        public_key_hex,
                        app_id,
                        hash_hex,
                        now_ms,
                    );
                assert(tokens[k + 1] == rest[k]);
            }
        }
    }
}

/// Once a token is revoked, a request that no other stored token would let
/// in is refused, at any time.
pub proof fn law_revoked_token_never_authenticates(
    tokens: Seq<(Seq<char>, TokenRecord)>,
    owner: Seq<char>,
    token_id: Seq<char>,
    public_key_hex: Seq<char>,
    app_id: Seq<char>,
    hash_hex: Seq<char>,
    now_ms: i64,
)
    requires
        names_unique(tokens),
        revoke_outcome(tokens, owner, token_id).1,
        forall|k: int|
            0 <= k < tokens.len() && tokens[k].0 != file_name(token_id) ==> !admits(
                #[trigger] tokens[k].1,
                public_key_hex,
                app_id,
                hash_hex,
                now_ms,
            ),
    ensures
        first_admitted(
            revoke_outcome(tokens, owner, token_id).0,
            public_key_hex,
            app_id,
            hash_hex,
            now_ms,
        ) is None,
{
    let name = file_name(token_id);
    let token = lookup(tokens, name)->0;
    let revoked = revoke_outcome(tokens, owner, token_id).0;
    let p = position_of(tokens, name);
    assert(revoked == tokens.update(p, (name, revoked_copy(token))));
    lemma_first_admitted_witness(revoked, public_key_hex, app_id, hash_hex, now_ms);
    if first_admitted(revoked, public_key_hex, app_id, hash_hex, now_ms) is Some {
        let found = first_admitted(revoked, public_key_hex, app_id, hash_hex, now_ms)->0;
        let k = choose|k: int|
            0 <= k < revoked.len() && revoked[k].1 == found && admits(
                revoked[k].1,
                public_key_hex,
                app_id,
                hash_hex,
                now_ms,
            );
        if k != p {
            assert(revoked[k] == tokens[k]);
            assert(tokens[k].0 != name) by {
                if k < p {
                    assert(tokens[k].0 != tokens[p].0);
                } else {
                    assert(tokens[p].0 != tokens[k].0);
                }
            }
        }
    }
}

/// A request is let in by no token when every token of its account and
/// application that holds its password's digest is revoked or has expired;
/// WebDAV authorization then refuses it as unauthorized.
pub proof fn law_no_live_token_refused(
    tokens: Seq<(Seq<char>, TokenRecord)>,
    public_key_hex: Seq<char>,
    app_id: Seq<char>,
    hash_hex: Seq<char>,
    now_ms: i64,
)
    requires
        forall|k: int|
            0 <= k < tokens.len() && (#[trigger] tokens[k].1).public_key_hex@ == public_key_hex
                && tokens[k].1.app_id@ == app_id && tokens[k].1.token_hash_hex@ == hash_hex ==> (
            tokens[k].1.revoked || tokens[k].1.expires_at_ms < now_ms),
    ensures
        first_admitted(tokens, public_key_hex, app_id, hash_hex, now_ms) is None,
{
    lemma_first_admitted_witness(tokens, public_key_hex, app_id, hash_hex, now_ms);
}

/// Revoking a revoked token again succeeds and changes nothing more.
pub proof fn law_revoke_idempotent(
    tokens: Seq<(Seq<char>, TokenRecord)>,
    public_key_hex: Seq<char>,
    token_id: Seq<char>,
)
    requires
        names_unique(tokens),
        revoke_outcome(tokens, public_key_hex, token_id).1,
    ensures
        ({
            let once = revoke_outcome(tokens, public_key_hex, token_id).0;
            revoke_outcome(once, public_key_hex, token_id) == (once, true)
        }),
{
    let name = file_name(token_id);
    let token = lookup(tokens, name)->0;
    let once = revoke_outcome(tokens, public_key_hex, token_id).0;
    lemma_upsert_unique(tokens, name, revoked_copy(token));
    let p = position_of(tokens, name);
    lemma_position_unique(once, name, p);
    assert(revoked_copy(revoked_copy(token)) == revoked_copy(token));
    assert(once.update(p, (name, revoked_copy(token))) =~= once);
}

proof fn lemma_count_monotone(tokens: Seq<TokenRecord>, earlier: i64, later: i64)
    requires
        earlier <= later,
    ensures
        count_status(tokens, later, TokenStatus::Revoked) == count_status(
            tokens,
            earlier,
            TokenStatus::Revoked,
        ),
        count_status(tokens, later, TokenStatus::Active) <= count_status(
            tokens,
            earlier,
            TokenStatus::Active,
        ),
        count_status(tokens, later, TokenStatus::Expired) >= count_status(
            tokens,
            earlier,
            TokenStatus::Expired,
        ),
    decreases tokens.len(),
{
    if tokens.len() > 0 {
        lemma_count_monotone(tokens.drop_last(), earlier, later);
    }
}

/// With time passing and the tokens unchanged, no token count changes but
/// that active tokens can only become expired.
pub proof fn law_status_counts_monotone(tokens: Seq<TokenRecord>, earlier: i64, later: i64)
    requires
        earlier <= later,
    ensures
        count_status(tokens, later, TokenStatus::Revoked) == count_status(
            tokens,
            earlier,
            TokenStatus::Revoked,
        ),
        count_status(tokens, later, TokenStatus::Active) <= count_status(
            tokens,
            earlier,
            TokenStatus::Active,
        ),
        count_status(tokens, later, TokenStatus::Expired) >= count_status(
            tokens,
            earlier,
            TokenStatus::Expired,
        ),
        forall|i: int|
            0 <= i < tokens.len() && status_of(tokens[i], later) == TokenStatus::Active ==> #[trigger] status_of(
                tokens[i],
                earlier,
            ) == TokenStatus::Active,
{
    lemma_count_monotone(tokens, earlier, later);
}

/// Asked at a later time, an unchanged store reports the same tokens, the
/// same revoked ones, no more active ones and no fewer expired ones.
pub proof fn law_store_stats_monotone(store: FileStore, earlier: i64, later: i64)
    requires
        earlier <= later,
    ensures
        count_status(store.token_records(), later, TokenStatus::Revoked) == count_status(
            store.token_records(),
            earlier,
            TokenStatus::Revoked,
        ),
        count_status(store.token_records(), later, TokenStatus::Active) <= count_status(
            store.token_records(),
            earlier,
            TokenStatus::Active,
        ),
        count_status(store.token_records(), later, TokenStatus::Expired) >= count_status(
            store.token_records(),
            earlier,
            TokenStatus::Expired,
        ),
{
    law_status_counts_monotone(store.token_records(), earlier, later);
}

/// A single path component: not empty and holding no `/`.
pub open spec fn plain_component(c: Seq<char>) -> bool {
    c.len() > 0 && !c.contains('/')
}

proof fn lemma_split_first_slash(x1: Seq<char>, r1: Seq<char>, x2: Seq<char>, r2: Seq<char>)
    requires
        !x1.contains('/'),
        !x2.contains('/'),
        x1 + seq!['/'] + r1 == x2 + seq!['/'] + r2,
    ensures
        x1 == x2,
        r1 == r2,
{
    let whole = x1 + seq!['/'] + r1;
    assert forall|k: int| 0 <= k < x1.len() implies whole[k] != '/' by {
        assert(whole[k] == x1[k]);
    }
    lemma_index_of(whole, '/', x1.len() as int);
    let other = x2 + seq!['/'] + r2;
    assert forall|k: int| 0 <= k < x2.len() implies other[k] != '/' by {
        assert(other[k] == x2[k]);
    }
    lemma_index_of(other, '/', x2.len() as int);
    assert(x1 =~= whole.take(x1.len() as int));
    assert(x2 =~= other.take(x2.len() as int));
    assert(r1 =~= whole.skip(x1.len() as int + 1));
    assert(r2 =~= other.skip(x2.len() as int + 1));
}

proof fn lemma_join_plain(base: Seq<char>, part: Seq<char>)
    requires
        base.len() > 0,
        base.last() != '/',
        plain_component(part),
    ensures
        path_join_spec(base, part) == base + seq!['/'] + part,
{
    assert(part.contains(part[0]) || true);
    if part[0] == '/' {
        assert(part.contains(part[0]));
    }
}

/// The directory of an application space, below the accounts directory.
proof fn lemma_app_dir_shape(data_dir: Seq<char>, public_key_hex: Seq<char>, app_id: Seq<char>)
    requires
        plain_component(public_key_hex),
        plain_component(app_id),
    ensures
        app_dir_spec(data_dir, public_key_hex, app_id) == path_join_spec(data_dir, "accounts"@)
            + seq!['/'] + (public_key_hex + seq!['/'] + ("apps"@ + seq!['/'] + app_id)),
{
    reveal_strlit("accounts");
    reveal_strlit("apps");
    let base = path_join_spec(data_dir, "accounts"@);
    assert(base.len() > 0 && base.last() == 's');
    lemma_join_plain(base, public_key_hex);
    let account = base + seq!['/'] + public_key_hex;
    assert(account.last() == public_key_hex.last());
    assert(account.last() != '/') by {
        if account.last() == '/' {
            assert(public_key_hex.contains(public_key_hex[public_key_hex.len() - 1]));
        }
    }
    assert(plain_component("apps"@)) by {
        assert forall|k: int| 0 <= k < 4 implies "apps"@[k] != '/' by {}
    }
    lemma_join_plain(account, "apps"@);
    let apps = account + seq!['/'] + "apps"@;
    assert(apps.last() == 's');
    lemma_join_plain(apps, app_id);
    assert(apps + seq!['/'] + app_id =~= base + seq!['/'] + (public_key_hex + seq!['/'] + (
    "apps"@ + seq!['/'] + app_id)));
}

/// Application spaces are kept apart: for plain components, two spaces have
/// the same directory only when they are of the same account and application,
/// and no space's directory lies inside another's.
pub proof fn law_app_dirs_isolated(
    data_dir: Seq<char>,
    key1: Seq<char>,
    app1: Seq<char>,
    key2: Seq<char>,
    app2: Seq<char>,
    rest: Seq<char>,
)
    requires
        plain_component(key1),
        plain_component(app1),
        plain_component(key2),
        plain_component(app2),
    ensures
        (app_dir_spec(data_dir, key1, app1) == app_dir_spec(data_dir, key2, app2)) <==> (key1
            == key2 && app1 == app2),
        app_dir_spec(data_dir, key1, app1) + seq!['/'] + rest != app_dir_spec(data_dir, key2, app2),
{
    reveal_strlit("apps");
    lemma_app_dir_shape(data_dir, key1, app1);
    lemma_app_dir_shape(data_dir, key2, app2);
    let base = path_join_spec(data_dir, "accounts"@) + seq!['/'];
    let t1 = key1 + seq!['/'] + ("apps"@ + seq!['/'] + app1);
    let t2 = key2 + seq!['/'] + ("apps"@ + seq!['/'] + app2);
    let apps_seq = "apps"@;
    assert(!apps_seq.contains('/')) by {
        assert forall|k: int| 0 <= k < 4 implies apps_seq[k] != '/' by {}
    }
    if base + t1 == base + t2 {
        assert(t1 =~= (base + t1).skip(base.len() as int));
        assert(t2 =~= (base + t2).skip(base.len() as int));
        lemma_split_first_slash(key1, "apps"@ + seq!['/'] + app1, key2, "apps"@ + seq!['/'] + app2);
        lemma_split_first_slash("apps"@, app1, "apps"@, app2);
    }
    assert(base + t1 == path_join_spec(data_dir, "accounts"@) + seq!['/'] + t1);
    if base + t1 + seq!['/'] + rest == base + t2 {
        let u1 = t1 + seq!['/'] + rest;
        assert(u1 =~= (base + t1 + seq!['/'] + rest).skip(base.len() as int));
        assert(t2 =~= (base + t2).skip(base.len() as int));
        assert(u1 =~= key1 + seq!['/'] + ("apps"@ + seq!['/'] + (app1 + seq!['/'] + rest)));
        lemma_split_first_slash(
            key1,
            "apps"@ + seq!['/'] + (app1 + seq!['/'] + rest),
            key2,
            "apps"@ + seq!['/'] + app2,
        );
        lemma_split_first_slash("apps"@, app1 + seq!['/'] + rest, "apps"@, app2);
        assert(app2[app1.len() as int] == '/');
        assert(app2.contains('/'));
    }
}

} // verus!
