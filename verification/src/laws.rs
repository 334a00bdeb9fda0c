//! What holds of the library across calls, and what each computation means:
//! nonces are single-use, users with the right password are let in, a parsed
//! header holds the values it was sent with, the digests are those a standard
//! client computes, and query checks refuse exactly the first unknown name.

use vstd::prelude::*;

use vstd::utf8::encode_utf8;

use crate::auth::{
    authorize_outcome, consume_outcome, credentials_match, debug_text_of_bytes, digest_param,
    ha1_of, ha1_table, nonce_from_seed, param_value, spec_parse_digest_header, validate_outcome,
    with_nonces, www_authenticate_text, AuthState, DigestFieldsView, UserEntry,
};
use crate::digest_hex::{hex_digit, hex_lower, md5_digest, md5_hex_of};
use crate::errors::{ApiError, ErrorCode};
use crate::query::{
    first_unknown_name, form_urlencoded_pairs, names_text, pairs_text, query_unknown_name,
};
use crate::routes::greeting::{greeting_text, name_or_world};
use crate::text::{is_first_index, is_white_space, split_on, trim, trim_quotes};
use crate::text_laws::law_first_index_of;

verus! {

/// A nonce that was issued is accepted once, and refused after that.
pub proof fn law_issued_nonce_used_once(nonces: Set<Seq<char>>, nonce: Seq<char>)
    ensures
        consume_outcome(nonces.insert(nonce), nonce).0,
        !consume_outcome(consume_outcome(nonces.insert(nonce), nonce).1, nonce).0,
{
}

/// A request that was let in cannot be replayed: the same fields are refused
/// the second time.
pub proof fn law_no_replay(state: AuthState, method: Seq<char>, f: DigestFieldsView)
    ensures
        validate_outcome(state, method, f).0 ==> !validate_outcome(
            validate_outcome(state, method, f).1,
            method,
            f,
        ).0,
{
}

/// One operation on the authentication state, as the library's functions
/// perform it: checking fields (`validate`), checking a header (`authorize`),
/// using up a nonce (`consume_nonce`) or issuing one (`issue_nonce`).
pub enum AuthStep {
    Validate { method: Seq<char>, fields: DigestFieldsView },
    Authorize { method: Seq<char>, header: Option<Seq<char>> },
    Consume { nonce: Seq<char> },
    Issue { nonce: Seq<char> },
}

/// The state after one operation, as the contracts of the functions state it.
pub open spec fn apply_step(state: AuthState, step: AuthStep) -> AuthState {
    match step {
        AuthStep::Validate { method, fields } => validate_outcome(state, method, fields).1,
        AuthStep::Authorize { method, header } => authorize_outcome(state, method, header).1,
        AuthStep::Consume { nonce } => with_nonces(state, consume_outcome(state.nonces, nonce).1),
        AuthStep::Issue { nonce } => with_nonces(state, state.nonces.insert(nonce)),
    }
}

/// The state after the operations, in order.
pub open spec fn run_steps(state: AuthState, steps: Seq<AuthStep>) -> AuthState
    decreases steps.len(),
{
    if steps.len() == 0 {
        state
    } else {
        run_steps(apply_step(state, steps[0]), steps.drop_first())
    }
}

/// None of the operations issues `nonce` again.
pub open spec fn never_reissues(steps: Seq<AuthStep>, nonce: Seq<char>) -> bool {
    forall|i: int| 0 <= i < steps.len() ==> !(#[trigger] steps[i] matches AuthStep::Issue { nonce: n } && n == nonce)
}

/// A nonce that is not held stays so through operations that do not issue it again.
pub proof fn lemma_nonce_stays_used(state: AuthState, steps: Seq<AuthStep>, nonce: Seq<char>)
    requires
        !state.nonces.contains(nonce),
        never_reissues(steps, nonce),
    ensures
        !run_steps(state, steps).nonces.contains(nonce),
    decreases steps.len(),
{
    if steps.len() > 0 {
        let next = apply_step(state, steps[0]);
        assert(!(steps[0] matches AuthStep::Issue { nonce: n } && n == nonce));
        assert(!next.nonces.contains(nonce));
        let rest = steps.drop_first();
        assert forall|i: int| 0 <= i < rest.len() implies !(#[trigger] rest[i] matches AuthStep::Issue {
            nonce: n,
        } && n == nonce) by {
            assert(rest[i] == steps[i + 1]);
        }
        lemma_nonce_stays_used(next, rest, nonce);
    }
}

/// A request that was let in cannot be replayed later, whatever other
/// requests, checks and nonce uses come in between, as long as none of them
/// issues its nonce again: the same fields, and the same header, are refused.
pub proof fn law_no_replay_after_other_requests(
    state: AuthState,
    method: Seq<char>,
    f: DigestFieldsView,
    steps: Seq<AuthStep>,
)
    requires
        validate_outcome(state, method, f).0,
        never_reissues(steps, f.nonce),
    ensures
        !validate_outcome(run_steps(validate_outcome(state, method, f).1, steps), method, f).0,
{
    lemma_nonce_stays_used(validate_outcome(state, method, f).1, steps, f.nonce);
}

/// The same for a whole `Authorization` header: a header that was let in is
/// refused when it comes again, whatever came in between without reissuing its nonce.
pub proof fn law_header_not_replayable(
    state: AuthState,
    method: Seq<char>,
    header: Seq<char>,
    steps: Seq<AuthStep>,
)
    requires
        authorize_outcome(state, method, Some(header)).0,
        never_reissues(steps, spec_parse_digest_header(header)->0.nonce),
    ensures
        !authorize_outcome(
            run_steps(authorize_outcome(state, method, Some(header)).1, steps),
            method,
            Some(header),
        ).0,
{
    let f = spec_parse_digest_header(header)->0;
    law_no_replay_after_other_requests(state, method, f, steps);
}

/// Checking a request only ever removes its own nonce, and keeps the realm and
/// the users.
pub proof fn law_validate_keeps_credentials(state: AuthState, method: Seq<char>, f: DigestFieldsView)
    ensures
        validate_outcome(state, method, f).1.realm == state.realm,
        validate_outcome(state, method, f).1.users == state.users,
        validate_outcome(state, method, f).1.nonces.subset_of(state.nonces),
        forall|n: Seq<char>|
            n != f.nonce && #[trigger] state.nonces.contains(n) ==> validate_outcome(
                state,
                method,
                f,
            ).1.nonces.contains(n),
{
}

/// Credentials that match are accepted with a freshly issued nonce.
pub proof fn law_challenge_nonce_accepted(state: AuthState, method: Seq<char>, f: DigestFieldsView)
    requires
        credentials_match(state, method, f),
    ensures
        validate_outcome(with_nonces(state, state.nonces.insert(f.nonce)), method, f).0,
{
}

/// `users[i]` is the last entry with its username.
pub open spec fn is_last_entry(users: Seq<UserEntry>, i: int) -> bool {
    &&& 0 <= i < users.len()
    &&& forall|j: int| i < j < users.len() ==> users[j].username@ != users[i].username@
}

/// The HA1 kept for a username is the one of its last entry.
pub proof fn lemma_ha1_table_last_entry(realm: Seq<char>, users: Seq<UserEntry>, i: int)
    requires
        is_last_entry(users, i),
    ensures
        ha1_table(realm, users).contains_key(users[i].username@),
        ha1_table(realm, users)[users[i].username@] == ha1_of(
            users[i].username@,
            realm,
            users[i].password@,
        ),
    decreases users.len(),
{
    if i < users.len() - 1 {
        let rest = users.drop_last();
        assert(is_last_entry(rest, i));
        lemma_ha1_table_last_entry(realm, rest, i);
    }
}

/// A user of the credentials file who answers the challenge with their
/// password, in the realm and with an issued nonce, is let in, and the nonce
/// is used up.
pub proof fn law_user_with_password_admitted(
    realm: Seq<char>,
    users: Seq<UserEntry>,
    i: int,
    nonces: Set<Seq<char>>,
    method: Seq<char>,
    f: DigestFieldsView,
)
    requires
        is_last_entry(users, i),
        f.realm == realm,
        f.username == users[i].username@,
        f.response == client_response(
            client_ha1(users[i].username@, realm, users[i].password@),
            method,
            f,
        ),
        nonces.contains(f.nonce),
    ensures
        ({
            let state = AuthState { realm, users: ha1_table(realm, users), nonces };
            validate_outcome(state, method, f) == (true, with_nonces(state, nonces.remove(f.nonce)))
        }),
{
    law_ha1_of_full_text(realm, users, i);
    law_response_check(AuthState { realm, users: ha1_table(realm, users), nonces }, method, f);
}

/// A request in another realm, or from an unknown user, is refused and changes nothing.
pub proof fn law_foreign_request_refused(state: AuthState, method: Seq<char>, f: DigestFieldsView)
    requires
        f.realm != state.realm || !state.users.contains_key(f.username),
    ensures
        validate_outcome(state, method, f) == (false, state),
{
}

/// The name the query check refuses is the first one that is not known: the
/// names before it are all known. It refuses none exactly when every name is known.
pub proof fn law_first_unknown_name(pairs: Seq<(Seq<char>, Seq<char>)>, known: Seq<Seq<char>>)
    ensures
        first_unknown_name(pairs, known) is None <==> forall|i: int|
            0 <= i < pairs.len() ==> known.contains(#[trigger] pairs[i].0),
        match first_unknown_name(pairs, known) {
            Some(name) => exists|i: int|
                0 <= i < pairs.len() && #[trigger] pairs[i].0 == name && !known.contains(name)
                    && forall|j: int| 0 <= j < i ==> known.contains(#[trigger] pairs[j].0),
            None => forall|i: int| 0 <= i < pairs.len() ==> known.contains(#[trigger] pairs[i].0),
        },
    decreases pairs.len(),
{
    if pairs.len() > 0 {
        let rest = pairs.drop_first();
        law_first_unknown_name(rest, known);
        if known.contains(pairs[0].0) {
            match first_unknown_name(rest, known) {
                Some(name) => {
                    let k = choose|k: int|
                        0 <= k < rest.len() && #[trigger] rest[k].0 == name && !known.contains(name)
                            && forall|j: int| 0 <= j < k ==> known.contains(#[trigger] rest[j].0);
                    assert(pairs[k + 1].0 == name);
                    assert forall|j: int| 0 <= j < k + 1 implies known.contains(
                        #[trigger] pairs[j].0,
                    ) by {
                        if j > 0 {
                            assert(pairs[j] == rest[j - 1]);
                        }
                    }
                },
                None => {
                    assert forall|i: int| 0 <= i < pairs.len() implies known.contains(
                        #[trigger] pairs[i].0,
                    ) by {
                        if i > 0 {
                            assert(pairs[i] == rest[i - 1]);
                        }
                    }
                },
            }
        }
    }
}

/// Each error code has a number of its own.
pub proof fn law_error_codes_distinct(a: ErrorCode, b: ErrorCode)
    ensures
        a.spec_value() == b.spec_value() <==> a == b,
{
}

// ---------------------------------------------------------------------------
// What a parsed header holds
// ---------------------------------------------------------------------------

/// `part` reads `key=value`: in the trimmed part, the key is the trimmed text
/// before the first `=`, and the value the text after it, trimmed and with its
/// surrounding quotes dropped.
pub open spec fn part_has(part: Seq<char>, key: Seq<char>, value: Seq<char>) -> bool {
    let p = trim(part);
    exists|i: int|
        #![trigger is_first_index(p, '=', i)]
        is_first_index(p, '=', i) && trim(p.take(i)) == key && trim_quotes(trim(p.skip(i + 1)))
            == value
}

/// `part` gives some value to `key`.
pub open spec fn part_names(part: Seq<char>, key: Seq<char>) -> bool {
    let p = trim(part);
    exists|i: int| #![trigger is_first_index(p, '=', i)] is_first_index(p, '=', i) && trim(p.take(i)) == key
}

/// `value` is what the last part that names `key` gives it.
pub open spec fn is_last_value(parts: Seq<Seq<char>>, key: Seq<char>, value: Seq<char>) -> bool {
    exists|j: int|
        #![trigger parts[j]]
        0 <= j < parts.len() && part_has(parts[j], key, value) && forall|m: int|
            j < m < parts.len() ==> !part_names(#[trigger] parts[m], key)
}

/// No part names `key`.
pub open spec fn never_named(parts: Seq<Seq<char>>, key: Seq<char>) -> bool {
    forall|j: int| 0 <= j < parts.len() ==> !part_names(#[trigger] parts[j], key)
}

/// The pair read from a part is its key and value as `part_has` says.
pub proof fn lemma_digest_param(part: Seq<char>)
    ensures
        match digest_param(part) {
            Some(kv) => part_has(part, kv.0, kv.1) && forall|key: Seq<char>|
                part_names(part, key) ==> key == kv.0,
            None => forall|key: Seq<char>| !part_names(part, key),
        },
{
    let p = trim(part);
    law_first_index_of(p, '=');
    match digest_param(part) {
        Some(kv) => {
            let i = first_index_of_eq(p);
            assert(is_first_index(p, '=', i));
            assert forall|key: Seq<char>| part_names(part, key) implies key == kv.0 by {
                let i2 = choose|i2: int| is_first_index(p, '=', i2) && trim(p.take(i2)) == key;
                crate::text::lemma_first_index_unique(p, '=', i2);
            }
        },
        None => {
            assert forall|key: Seq<char>| !part_names(part, key) by {
                if part_names(part, key) {
                    let i2 = choose|i2: int| is_first_index(p, '=', i2) && trim(p.take(i2)) == key;
                    crate::text::lemma_first_index_unique(p, '=', i2);
                }
            }
        },
    }
}

/// The position of the first `=`, where there is one.
proof fn first_index_of_eq(p: Seq<char>) -> (i: int)
    requires
        crate::text::first_index_of(p, '=') is Some,
    ensures
        is_first_index(p, '=', i),
        crate::text::first_index_of(p, '=') == Some(i),
{
    law_first_index_of(p, '=');
    let i = crate::text::first_index_of(p, '=')->0;
    i
}

/// The value read for `key` is the one of the last part that names it, and
/// there is none exactly when no part names it.
pub proof fn lemma_param_value(parts: Seq<Seq<char>>, key: Seq<char>)
    ensures
        match param_value(parts, key) {
            Some(v) => is_last_value(parts, key, v),
            None => never_named(parts, key),
        },
    decreases parts.len(),
{
    if parts.len() > 0 {
        let last = parts.last();
        let rest = parts.drop_last();
        lemma_param_value(rest, key);
        lemma_digest_param(last);
        let n = parts.len() - 1;
        assert(parts[n] == last);
        let here = match digest_param(last) {
            Some(kv) => kv.0 == key,
            None => false,
        };
        if here {
            assert(part_has(parts[n], key, param_value(parts, key)->0));
        } else {
            assert(!part_names(last, key));
            match param_value(rest, key) {
                Some(v) => {
                    let j = choose|j: int|
                        #![trigger rest[j]]
                        0 <= j < rest.len() && part_has(rest[j], key, v) && forall|m: int|
                            j < m < rest.len() ==> !part_names(#[trigger] rest[m], key);
                    assert(parts[j] == rest[j]);
                    assert forall|m: int| j < m < parts.len() implies !part_names(
                        #[trigger] parts[m],
                        key,
                    ) by {
                        if m < n {
                            assert(parts[m] == rest[m]);
                        }
                    }
                },
                None => {
                    assert forall|j: int| 0 <= j < parts.len() implies !part_names(
                        #[trigger] parts[j],
                        key,
                    ) by {
                        if j < n {
                            assert(parts[j] == rest[j]);
                        }
                    }
                },
            }
        }
    }
}

/// What a parsed header holds. The header must begin with `Digest `; the rest
/// is cut at every comma, and each field is the value of the last part that
/// names it, in full: trimmed, with its surrounding quotes dropped, and
/// nothing else taken away. `username`, `realm`, `nonce`, `uri` and `response`
/// are required; `nc`, `cnonce` and `qop` are empty where no part names them.
pub proof fn law_parsed_fields(header: Seq<char>)
    ensures
        ({
            let scheme = "Digest "@;
            let has_scheme = scheme.len() <= header.len() && header.take(scheme.len() as int)
                == scheme;
            let parts = split_on(header.skip(scheme.len() as int), ',');
            &&& !has_scheme ==> spec_parse_digest_header(header) is None
            &&& has_scheme ==> match spec_parse_digest_header(header) {
                Some(f) => {
                    &&& is_last_value(parts, "username"@, f.username)
                    &&& is_last_value(parts, "realm"@, f.realm)
                    &&& is_last_value(parts, "nonce"@, f.nonce)
                    &&& is_last_value(parts, "uri"@, f.uri)
                    &&& is_last_value(parts, "response"@, f.response)
                    &&& is_last_value(parts, "nc"@, f.nc) || (never_named(parts, "nc"@)
                        && f.nc.len() == 0)
                    &&& is_last_value(parts, "cnonce"@, f.cnonce) || (never_named(
                        parts,
                        "cnonce"@,
                    ) && f.cnonce.len() == 0)
                    &&& is_last_value(parts, "qop"@, f.qop) || (never_named(parts, "qop"@)
                        && f.qop.len() == 0)
                },
                None => {
                    ||| never_named(parts, "username"@)
                    ||| never_named(parts, "realm"@)
                    ||| never_named(parts, "nonce"@)
                    ||| never_named(parts, "uri"@)
                    ||| never_named(parts, "response"@)
                },
            }
        }),
{
    let scheme = "Digest "@;
    let parts = split_on(header.skip(scheme.len() as int), ',');
    lemma_param_value(parts, "username"@);
    lemma_param_value(parts, "realm"@);
    lemma_param_value(parts, "nonce"@);
    lemma_param_value(parts, "uri"@);
    lemma_param_value(parts, "response"@);
    lemma_param_value(parts, "nc"@);
    lemma_param_value(parts, "cnonce"@);
    lemma_param_value(parts, "qop"@);
}

// ---------------------------------------------------------------------------
// The digest computations, as a standard client performs them
// ---------------------------------------------------------------------------

/// HA1 as a client derives it from the password: the lower-case hex MD5 of
/// the whole text `username:realm:password`.
pub open spec fn client_ha1(username: Seq<char>, realm: Seq<char>, password: Seq<char>) -> Seq<char> {
    md5_hex_of(username + seq![':'] + realm + seq![':'] + password)
}

/// The response a standard Digest client sends: with HA2 the hex MD5 of
/// `method:uri` (the `uri` field exactly as sent), MD5 of
/// `HA1:nonce:nc:cnonce:qop:HA2` when `qop` is `auth`, else of `HA1:nonce:HA2`.
pub open spec fn client_response(ha1: Seq<char>, method: Seq<char>, f: DigestFieldsView) -> Seq<char> {
    let ha2 = md5_hex_of(method + seq![':'] + f.uri);
    if f.qop == "auth"@ {
        md5_hex_of(
            ha1 + seq![':'] + f.nonce + seq![':'] + f.nc + seq![':'] + f.cnonce + seq![':'] + f.qop
                + seq![':'] + ha2,
        )
    } else {
        md5_hex_of(ha1 + seq![':'] + f.nonce + seq![':'] + ha2)
    }
}

/// The check of a request's fields: accepted exactly when the realm is ours,
/// the user is known, the response is the one a standard client computes from
/// the kept HA1 and the request's method and uri, and the nonce was issued;
/// once realm, user and response match, the nonce is used up; otherwise
/// nothing changes.
pub proof fn law_response_check(state: AuthState, method: Seq<char>, f: DigestFieldsView)
    ensures
        validate_outcome(state, method, f) == if f.realm == state.realm && state.users.contains_key(
            f.username,
        ) && f.response == client_response(state.users[f.username], method, f) {
            (
                state.nonces.contains(f.nonce),
                AuthState {
                    realm: state.realm,
                    users: state.users,
                    nonces: state.nonces.remove(f.nonce),
                },
            )
        } else {
            (false, state)
        },
{
}

/// The HA1 kept for a user is the hex MD5 of the whole text
/// `username:realm:password` of the user's last entry, and only the users of
/// the file have one.
pub proof fn law_ha1_of_full_text(realm: Seq<char>, users: Seq<UserEntry>, i: int)
    requires
        is_last_entry(users, i),
    ensures
        ha1_table(realm, users).contains_key(users[i].username@),
        ha1_table(realm, users)[users[i].username@] == client_ha1(
            users[i].username@,
            realm,
            users[i].password@,
        ),
{
    lemma_ha1_table_last_entry(realm, users, i);
}

/// Only the usernames of the file have an HA1.
pub proof fn law_ha1_table_users(realm: Seq<char>, users: Seq<UserEntry>, name: Seq<char>)
    ensures
        ha1_table(realm, users).contains_key(name) <==> exists|i: int|
            0 <= i < users.len() && (#[trigger] users[i]).username@ == name,
    decreases users.len(),
{
    if users.len() > 0 {
        let rest = users.drop_last();
        law_ha1_table_users(realm, rest, name);
        if exists|i: int| 0 <= i < users.len() && (#[trigger] users[i]).username@ == name {
            let i = choose|i: int| 0 <= i < users.len() && (#[trigger] users[i]).username@ == name;
            if i < users.len() - 1 {
                assert(rest[i] == users[i]);
            }
        }
        if exists|i: int| 0 <= i < rest.len() && (#[trigger] rest[i]).username@ == name {
            let i = choose|i: int| 0 <= i < rest.len() && (#[trigger] rest[i]).username@ == name;
            assert(users[i] == rest[i]);
        }
    }
}

// ---------------------------------------------------------------------------
// Version 2's known parameters and the greeting messages
// ---------------------------------------------------------------------------

/// Version 2's `hello` accepts a query exactly when every name in it is `name`.
pub proof fn law_v2_hello_known_names(pairs: Seq<(Seq<char>, Seq<char>)>)
    ensures
        first_unknown_name(pairs, crate::routes::v2::hello::hello_known_keys()) is None
            <==> forall|i: int| 0 <= i < pairs.len() ==> #[trigger] pairs[i].0 == "name"@,
{
    let known = crate::routes::v2::hello::hello_known_keys();
    law_first_unknown_name(pairs, known);
    assert forall|n: Seq<char>| known.contains(n) <==> n == "name"@ by {
        if n == "name"@ {
            assert(known[0] == n);
        }
    }
}

/// Version 2's `show_hello` accepts a query exactly when every name in it is
/// `greeting` or `name`.
pub proof fn law_v2_show_hello_known_names(pairs: Seq<(Seq<char>, Seq<char>)>)
    ensures
        first_unknown_name(pairs, crate::routes::v2::hello::show_hello_known_keys()) is None
            <==> forall|i: int|
            0 <= i < pairs.len() ==> #[trigger] pairs[i].0 == "greeting"@ || pairs[i].0 == "name"@,
{
    let known = crate::routes::v2::hello::show_hello_known_keys();
    law_first_unknown_name(pairs, known);
    assert forall|n: Seq<char>| known.contains(n) <==> (n == "greeting"@ || n == "name"@) by {
        if n == "greeting"@ {
            assert(known[0] == n);
        }
        if n == "name"@ {
            assert(known[1] == n);
        }
    }
}

/// The greeting message is the whole greeting, a comma and a space, the whole
/// name and `!`: nothing of either is left out.
pub proof fn law_greeting_text(greeting: Seq<char>, name: Seq<char>)
    ensures
        greeting_text(greeting, name).len() == greeting.len() + name.len() + 3,
        greeting_text(greeting, name).take(greeting.len() as int) == greeting,
        greeting_text(greeting, name)[greeting.len() as int] == ',',
        greeting_text(greeting, name)[greeting.len() as int + 1] == ' ',
        greeting_text(greeting, name).subrange(
            greeting.len() as int + 2,
            greeting.len() as int + 2 + name.len(),
        ) == name,
        greeting_text(greeting, name).last() == '!',
{
    let t = greeting_text(greeting, name);
    assert(t.take(greeting.len() as int) =~= greeting);
    assert(t.subrange(greeting.len() as int + 2, greeting.len() as int + 2 + name.len()) =~= name);
}

/// The name greeted is the one given, in full, and `world` where none is given.
pub proof fn law_name_or_world(name: Option<String>)
    ensures
        name_or_world(name) == match name {
            Some(n) => n@,
            None => "world"@,
        },
{
}

// ---------------------------------------------------------------------------
// Hexadecimal digests
// ---------------------------------------------------------------------------

/// The lower-case hexadecimal digits, in order.
pub open spec fn lower_hex_digits() -> Seq<char> {
    seq!['0', '1', '2', '3', '4', '5', '6', '7', '8', '9', 'a', 'b', 'c', 'd', 'e', 'f']
}

/// Hexadecimal text has two digits per byte: at `2i` the digit of the high
/// half of byte `i`, at `2i + 1` that of its low half.
pub proof fn law_hex_lower(bytes: Seq<u8>)
    ensures
        hex_lower(bytes).len() == 2 * bytes.len(),
        forall|i: int|
            0 <= i < bytes.len() ==> hex_lower(bytes)[2 * i] == lower_hex_digits()[(
            #[trigger] bytes[i]) as int / 16] && hex_lower(bytes)[2 * i + 1]
                == lower_hex_digits()[bytes[i] as int % 16],
    decreases bytes.len(),
{
    if bytes.len() > 0 {
        let rest = bytes.drop_last();
        law_hex_lower(rest);
        let h = hex_lower(bytes);
        let n = bytes.len() - 1;
        let b = bytes[n];
        assert(h == hex_lower(rest) + seq![hex_digit(b as int / 16), hex_digit(b as int % 16)]);
        assert forall|d: int| 0 <= d < 16 implies hex_digit(d) == #[trigger] lower_hex_digits()[d] by {
            assert(hex_digit(d) == lower_hex_digits()[d]);
        }
        assert forall|i: int| 0 <= i < bytes.len() implies h[2 * i] == lower_hex_digits()[(
        #[trigger] bytes[i]) as int / 16] && h[2 * i + 1] == lower_hex_digits()[bytes[i] as int
            % 16] by {
            if i < n {
                assert(bytes[i] == rest[i]);
            } else {
                assert(lower_hex_digits()[b as int / 16] == hex_digit(b as int / 16));
                assert(lower_hex_digits()[b as int % 16] == hex_digit(b as int % 16));
            }
        }
    }
}

/// The hex MD5 of a text is the hexadecimal text of the MD5 digest of the
/// text's UTF-8 bytes.
pub proof fn law_md5_hex_of(text: Seq<char>)
    ensures
        md5_hex_of(text) == hex_lower(md5_digest(encode_utf8(text))),
{
}

// ---------------------------------------------------------------------------
// The remaining definitions, tied to their meaning
// ---------------------------------------------------------------------------

/// Whitespace is Unicode's `White_Space` property, which `char::is_whitespace`
/// tests: U+0009 to U+000D, U+0020, U+0085, U+00A0, U+1680, U+2000 to U+200A,
/// U+2028, U+2029, U+202F, U+205F and U+3000.
pub proof fn law_white_space(c: char)
    ensures
        is_white_space(c) <==> {
            let u = c as u32;
            ||| 0x9 <= u <= 0xd
            ||| u == 0x20
            ||| u == 0x85
            ||| u == 0xa0
            ||| u == 0x1680
            ||| 0x2000 <= u <= 0x200a
            ||| u == 0x2028
            ||| u == 0x2029
            ||| u == 0x202f
            ||| u == 0x205f
            ||| u == 0x3000
        },
{
}

/// Checking a header: one that parses is checked by its fields; one that does
/// not parse, or no header, is refused and changes nothing.
pub proof fn law_authorize(state: AuthState, method: Seq<char>, header: Option<Seq<char>>)
    ensures
        authorize_outcome(state, method, header) == match header {
            Some(h) => match spec_parse_digest_header(h) {
                Some(f) => validate_outcome(state, method, f),
                None => (false, state),
            },
            None => (false, state),
        },
{
}

/// Using up a nonce tells whether it was held, and removes it, and only it.
pub proof fn law_consume(nonces: Set<Seq<char>>, n: Seq<char>)
    ensures
        consume_outcome(nonces, n).0 == nonces.contains(n),
        !consume_outcome(nonces, n).1.contains(n),
        forall|m: Seq<char>| m != n ==> (consume_outcome(nonces, n).1.contains(m) <==> nonces.contains(m)),
{
}

/// Changing the nonces keeps the realm and the users.
pub proof fn law_with_nonces(state: AuthState, nonces: Set<Seq<char>>)
    ensures
        with_nonces(state, nonces) == (AuthState { realm: state.realm, users: state.users, nonces }),
{
}

/// A nonce is the hex MD5 of the debug text of the random bytes.
pub proof fn law_nonce_from_seed(seed: Seq<u8>)
    ensures
        nonce_from_seed(seed) == md5_hex_of(debug_text_of_bytes(seed)),
{
}

/// The challenge names the realm and the nonce, in full and in quotes, and
/// asks for MD5 with `qop="auth"`.
pub proof fn law_www_authenticate_text(realm: Seq<char>, nonce: Seq<char>)
    ensures
        www_authenticate_text(realm, nonce) == "Digest realm=\""@ + realm + "\", nonce=\""@ + nonce
            + "\", algorithm=MD5, qop=\"auth\""@,
{
}

/// Each error's code and message: the message names the parameter in full.
pub proof fn law_api_error(e: ApiError)
    ensures
        e.spec_code() == match e {
            ApiError::UnknownQueryParam(_) => ErrorCode::UnknownQueryParam,
            ApiError::MissingParam(_) => ErrorCode::MissingParam,
            ApiError::InvalidParam { .. } => ErrorCode::InvalidParam,
        },
        e.spec_message() == match e {
            ApiError::UnknownQueryParam(key) => "Unknown query parameter: "@ + key@,
            ApiError::MissingParam(name) => "Missing required parameter: "@ + name@,
            ApiError::InvalidParam { field, reason } => "Invalid parameter value for '"@ + field@
                + "': "@ + reason@,
        },
{
}

/// The numbers of the error codes.
pub proof fn law_error_code_values()
    ensures
        ErrorCode::Unauthorized.spec_value() == 1000,
        ErrorCode::UnknownQueryParam.spec_value() == 1001,
        ErrorCode::MissingParam.spec_value() == 1002,
        ErrorCode::InvalidParam.spec_value() == 1003,
{
}

/// The names a query string holds are the ones `form_urlencoded` decodes from
/// its UTF-8 bytes; without a query string, nothing is refused.
pub proof fn law_query_unknown_name(query: Option<Seq<char>>, known: Seq<Seq<char>>)
    ensures
        query_unknown_name(query, known) == match query {
            Some(q) => first_unknown_name(form_urlencoded_pairs(encode_utf8(q)), known),
            None => None,
        },
{
}

/// The text forms keep every element, in order.
pub proof fn law_text_forms(pairs: Seq<(String, String)>, names: Seq<&str>)
    ensures
        pairs_text(pairs).len() == pairs.len(),
        forall|i: int|
            0 <= i < pairs.len() ==> #[trigger] pairs_text(pairs)[i] == (pairs[i].0@, pairs[i].1@),
        names_text(names).len() == names.len(),
        forall|i: int| 0 <= i < names.len() ==> #[trigger] names_text(names)[i] == names[i]@,
{
}

} // verus!
