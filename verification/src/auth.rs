//! Digest access authentication: the credentials, the nonces issued to
//! clients, the parser of `Authorization: Digest ...` headers and the check
//! of a client's response.

use vstd::prelude::*;
use vstd::string::*;

use vstd::hash_map::StringHashMap;
use vstd::hash_set::StringHashSet;

use crate::digest_hex::{md5_hex, md5_hex_of};
use crate::text::{
    push_field, str_eq, chars_of, find_char, first_index_of, range_matches, split_on, starts_with, trim, trim_bounds,
    trim_quotes,
};

verus! {

// ---------------------------------------------------------------------------
// Credentials file schema
// ---------------------------------------------------------------------------

/// The contents of the credentials file: the realm and its users.
pub struct CredentialsFile {
    pub realm: String,
    pub users: Vec<UserEntry>,
}

/// One user of the credentials file.
pub struct UserEntry {
    pub username: String,
    pub password: String,
}

// ---------------------------------------------------------------------------
// Shared auth state
// ---------------------------------------------------------------------------

/// The realm, the HA1 of each user and the nonces that were issued and not used yet.
pub struct DigestAuthConfig {
    pub realm: String,
    /// username -> HA1 = MD5(username:realm:password)
    users: StringHashMap<String>,
    nonces: StringHashSet,
}

/// What a [`DigestAuthConfig`] holds, as mathematical values.
pub struct AuthState {
    pub realm: Seq<char>,
    pub users: Map<Seq<char>, Seq<char>>,
    pub nonces: Set<Seq<char>>,
}

impl View for DigestAuthConfig {
    type V = AuthState;

    closed spec fn view(&self) -> AuthState {
        AuthState {
            realm: self.realm@,
            users: self.users@.map_values(|h: String| h@),
            nonces: self.nonces@,
        }
    }
}

/// HA1 = MD5(username:realm:password), in lower-case hexadecimal.
pub open spec fn ha1_of(username: Seq<char>, realm: Seq<char>, password: Seq<char>) -> Seq<char> {
    md5_hex_of(username + seq![':'] + realm + seq![':'] + password)
}

/// The HA1 of each user, a later entry with the same username replacing an earlier one.
pub open spec fn ha1_table(realm: Seq<char>, users: Seq<UserEntry>) -> Map<Seq<char>, Seq<char>>
    decreases users.len(),
{
    if users.len() == 0 {
        Map::empty()
    } else {
        let u = users.last();
        ha1_table(realm, users.drop_last()).insert(
            u.username@,
            ha1_of(u.username@, realm, u.password@),
        )
    }
}

/// Using the nonce `n`: whether it was issued, and the nonces left.
pub open spec fn consume_outcome(nonces: Set<Seq<char>>, n: Seq<char>) -> (bool, Set<Seq<char>>) {
    (nonces.contains(n), nonces.remove(n))
}

/// The state with other nonces.
pub open spec fn with_nonces(state: AuthState, nonces: Set<Seq<char>>) -> AuthState {
    AuthState { realm: state.realm, users: state.users, nonces }
}

/// The response a client that knows the password sends: with `qop=auth`,
/// MD5(HA1:nonce:nc:cnonce:qop:HA2), else MD5(HA1:nonce:HA2), where
/// HA2 = MD5(method:uri).
pub open spec fn expected_response(ha1: Seq<char>, method: Seq<char>, f: DigestFieldsView) -> Seq<
    char,
> {
    let ha2 = md5_hex_of(method + seq![':'] + f.uri);
    if f.qop == "auth"@ {
        md5_hex_of(
            ha1 + seq![':'] + f.nonce + seq![':'] + f.nc + seq![':'] + f.cnonce + seq![':'] + f.qop
                + seq![':'] + ha2,
        )
    } else {
        md5_hex_of(ha1 + seq![':'] + f.nonce + seq![':'] + ha2)
    }
}

/// The realm is ours, the user is known and the response is the one the password gives.
pub open spec fn credentials_match(state: AuthState, method: Seq<char>, f: DigestFieldsView) -> bool {
    &&& f.realm == state.realm
    &&& state.users.contains_key(f.username)
    &&& expected_response(state.users[f.username], method, f) == f.response
}

/// Checking the fields of a request: accepted when the credentials match and
/// the nonce was issued and not used; the nonce is used up once the credentials match.
pub open spec fn validate_outcome(state: AuthState, method: Seq<char>, f: DigestFieldsView) -> (
    bool,
    AuthState,
) {
    if credentials_match(state, method, f) {
        let (issued, left) = consume_outcome(state.nonces, f.nonce);
        (issued, with_nonces(state, left))
    } else {
        (false, state)
    }
}

/// Checking the `Authorization` header of a request, if it has one.
pub open spec fn authorize_outcome(state: AuthState, method: Seq<char>, header: Option<Seq<char>>) -> (
    bool,
    AuthState,
) {
    match header {
        Some(h) => match spec_parse_digest_header(h) {
            Some(f) => validate_outcome(state, method, f),
            None => (false, state),
        },
        None => (false, state),
    }
}

/// The text that `format!("{:?}", bytes)` writes for an array of bytes. The standard
/// library's documentation does not promise the form of `Debug` output.
pub uninterp spec fn debug_text_of_bytes(bytes: Seq<u8>) -> Seq<char>;

/// Formats `bytes` with `format!("{:?}", ..)`, std's `Debug` for arrays; the
/// contract only names the result, a function of the bytes alone.
#[verifier::external_body]
fn debug_format_bytes(bytes: &[u8; 16]) -> (r: String)
    ensures
        r@ == debug_text_of_bytes(bytes@),
{
    format!("{:?}", bytes)
}

/// Draws 16 random bytes with `rand::random::<[u8; 16]>()`; nothing is promised of them.
#[verifier::external_body]
fn random_seed() -> [u8; 16] {
    rand::random::<[u8; 16]>()
}

/// The nonce made from random bytes: the hexadecimal MD5 of their debug text.
pub open spec fn nonce_from_seed(seed: Seq<u8>) -> Seq<char> {
    md5_hex_of(debug_text_of_bytes(seed))
}

/// The value of the `WWW-Authenticate` header that asks for Digest credentials.
pub open spec fn www_authenticate_text(realm: Seq<char>, nonce: Seq<char>) -> Seq<char> {
    "Digest realm=\""@ + realm + "\", nonce=\""@ + nonce + "\", algorithm=MD5, qop=\"auth\""@
}

/// The answer to a request: let it through, or ask for credentials with a
/// fresh nonce and the `WWW-Authenticate` value that carries it.
pub enum AuthDecision {
    Allow,
    Challenge { nonce: String, www_authenticate: String },
}

impl DigestAuthConfig {
    /// Keeps the HA1 = MD5(username:realm:password) of each user, and no nonce.
    pub fn new(realm: String, users: Vec<UserEntry>) -> (r: Self)
        ensures
            r@.realm == realm@,
            r@.users == ha1_table(realm@, users@),
            forall|k: Seq<char>| #[trigger] r@.users.contains_key(k) ==> r@.users[k].len() == 32,
            r@.nonces == Set::<Seq<char>>::empty(),
    {
        let mut table: StringHashMap<String> = StringHashMap::new();
        let n = users.len();
        let mut i: usize = 0;
        while i < n
            invariant
                i <= n == users@.len(),
                table@.map_values(|h: String| h@) == ha1_table(realm@, users@.take(i as int)),
                forall|k: Seq<char>| #[trigger] table@.contains_key(k) ==> table@[k]@.len() == 32,
            decreases n - i,
        {
            let u = &users[i];
            let mut text = u.username.clone();
            push_field(&mut text, realm.as_str());
            push_field(&mut text, u.password.as_str());
            let ha1 = md5_hex(text.as_str());
            let ghost before = table@;
            table.insert(u.username.clone(), ha1);
            proof {
                assert(users@.take(i + 1).drop_last() =~= users@.take(i as int));
                assert(table@.map_values(|h: String| h@) =~= before.map_values(|h: String| h@).insert(
                    u.username@,
                    ha1@,
                ));
            }
            i = i + 1;
        }
        assert(users@.take(n as int) =~= users@);
        DigestAuthConfig { realm, users: table, nonces: StringHashSet::new() }
    }

    /// The realm.
    pub fn realm(&self) -> (r: &str)
        ensures
            r@ == self@.realm,
    {
        self.realm.as_str()
    }

    /// The HA1 kept for `username`.
    pub fn user_ha1(&self, username: &str) -> (r: Option<String>)
        ensures
            match r {
                Some(h) => self@.users.contains_key(username@) && h@ == self@.users[username@],
                None => !self@.users.contains_key(username@),
            },
    {
        match self.users.get(username) {
            Some(h) => Some(h.clone()),
            None => None,
        }
    }

    /// Issues a nonce made from the given random bytes and remembers it.
    pub fn issue_nonce_with_seed(&mut self, seed: [u8; 16]) -> (r: String)
        ensures
            r@ == nonce_from_seed(seed@),
            r@.len() == 32,
            final(self)@ == with_nonces(old(self)@, old(self)@.nonces.insert(r@)),
    {
        let text = debug_format_bytes(&seed);
        let nonce = md5_hex(text.as_str());
        self.nonces.insert(nonce.clone());
        nonce
    }

    /// Issues a fresh nonce from random bytes and remembers it.
    pub fn issue_nonce(&mut self) -> (r: String)
        ensures
            exists|seed: Seq<u8>| seed.len() == 16 && r@ == nonce_from_seed(seed),
            r@.len() == 32,
            final(self)@ == with_nonces(old(self)@, old(self)@.nonces.insert(r@)),
    {
        let seed = random_seed();
        self.issue_nonce_with_seed(seed)
    }

    /// Uses up `nonce`: true exactly when it was issued and not used yet.
    pub fn consume_nonce(&mut self, nonce: &str) -> (r: bool)
        ensures
            r == consume_outcome(old(self)@.nonces, nonce@).0,
            final(self)@ == with_nonces(old(self)@, consume_outcome(old(self)@.nonces, nonce@).1),
    {
        self.nonces.remove(nonce)
    }

    /// The `WWW-Authenticate` value that asks for credentials with `nonce`.
    pub fn www_authenticate_header(&self, nonce: &str) -> (r: String)
        ensures
            r@ == www_authenticate_text(self@.realm, nonce@),
    {
        let mut h = String::from_str("Digest realm=\"");
        h.append(self.realm.as_str());
        h.append("\", nonce=\"");
        h.append(nonce);
        h.append("\", algorithm=MD5, qop=\"auth\"");
        h
    }

    /// Checks the `Authorization` header of a request made with `method`.
    pub fn authorize(&mut self, method: &str, authorization: Option<&str>) -> (r: bool)
        ensures
            (r, final(self)@) == authorize_outcome(
                old(self)@,
                method@,
                match authorization {
                    Some(h) => Some(h@),
                    None => None,
                },
            ),
    {
        match authorization {
            Some(h) => match parse_digest_header(h) {
                Some(fields) => validate(self, method, &fields),
                None => false,
            },
            None => false,
        }
    }

    /// Lets an authorized request through; any other is answered with a
    /// challenge that carries a freshly issued nonce.
    pub fn check_request(&mut self, method: &str, authorization: Option<&str>) -> (r: AuthDecision)
        ensures
            ({
                let header = match authorization {
                    Some(h) => Some(h@),
                    None => None,
                };
                let (ok, after) = authorize_outcome(old(self)@, method@, header);
                &&& ok ==> r is Allow && final(self)@ == after
                &&& !ok ==> {
                    &&& r matches AuthDecision::Challenge { nonce, www_authenticate }
                    &&& exists|seed: Seq<u8>| seed.len() == 16 && nonce@ == nonce_from_seed(seed)
                    &&& final(self)@ == with_nonces(after, after.nonces.insert(nonce@))
                    &&& www_authenticate@ == www_authenticate_text(old(self)@.realm, nonce@)
                }
            }),
    {
        if self.authorize(method, authorization) {
            AuthDecision::Allow
        } else {
            let nonce = self.issue_nonce();
            let www_authenticate = self.www_authenticate_header(nonce.as_str());
            AuthDecision::Challenge { nonce, www_authenticate }
        }
    }
}

/// Checks the fields of a request made with `method`, and uses up its nonce
/// once the credentials match.
pub fn validate(config: &mut DigestAuthConfig, method: &str, fields: &DigestFields) -> (r: bool)
    ensures
        (r, final(config)@) == validate_outcome(old(config)@, method@, fields@),
{
    if fields.realm != config.realm {
        return false;
    }
    let ha1 = match config.user_ha1(fields.username.as_str()) {
        Some(h) => h,
        None => return false,
    };
    let mut a2 = String::from_str(method);
    push_field(&mut a2, fields.uri.as_str());
    let ha2 = md5_hex(a2.as_str());
    let mut a = ha1;
    push_field(&mut a, fields.nonce.as_str());
    if str_eq(fields.qop.as_str(), "auth") {
        push_field(&mut a, fields.nc.as_str());
        push_field(&mut a, fields.cnonce.as_str());
        push_field(&mut a, fields.qop.as_str());
    }
    push_field(&mut a, ha2.as_str());
    let expected = md5_hex(a.as_str());
    if expected != fields.response {
        return false;
    }
    config.consume_nonce(fields.nonce.as_str())
}

// ---------------------------------------------------------------------------
// Authorization header parser
// ---------------------------------------------------------------------------

/// The fields of an `Authorization: Digest ...` header.
pub struct DigestFields {
    pub username: String,
    pub realm: String,
    pub nonce: String,
    pub uri: String,
    pub nc: String,
    pub cnonce: String,
    pub qop: String,
    pub response: String,
}

/// The text of each field of a [`DigestFields`].
pub struct DigestFieldsView {
    pub username: Seq<char>,
    pub realm: Seq<char>,
    pub nonce: Seq<char>,
    pub uri: Seq<char>,
    pub nc: Seq<char>,
    pub cnonce: Seq<char>,
    pub qop: Seq<char>,
    pub response: Seq<char>,
}

impl View for DigestFields {
    type V = DigestFieldsView;

    open spec fn view(&self) -> DigestFieldsView {
        DigestFieldsView {
            username: self.username@,
            realm: self.realm@,
            nonce: self.nonce@,
            uri: self.uri@,
            nc: self.nc@,
            cnonce: self.cnonce@,
            qop: self.qop@,
            response: self.response@,
        }
    }
}

/// The `key=value` pair of one comma-separated part of a header: both sides
/// trimmed, and the quotes around the value dropped. A part without `=` has none.
pub open spec fn digest_param(part: Seq<char>) -> Option<(Seq<char>, Seq<char>)> {
    let p = trim(part);
    match first_index_of(p, '=') {
        Some(i) => Some((trim(p.take(i)), trim_quotes(trim(p.skip(i + 1))))),
        None => None,
    }
}

/// The value of `key` after the parts were read from first to last, a later
/// pair with the same key replacing an earlier one.
pub open spec fn param_value(parts: Seq<Seq<char>>, key: Seq<char>) -> Option<Seq<char>>
    decreases parts.len(),
{
    if parts.len() == 0 {
        None
    } else {
        match digest_param(parts.last()) {
            Some(kv) => if kv.0 == key {
                Some(kv.1)
            } else {
                param_value(parts.drop_last(), key)
            },
            None => param_value(parts.drop_last(), key),
        }
    }
}

/// The text of an optional field, empty where it is missing.
pub open spec fn or_empty(v: Option<Seq<char>>) -> Seq<char> {
    match v {
        Some(s) => s,
        None => Seq::empty(),
    }
}

/// The fields named by the parts of a header: `username`, `realm`, `nonce`,
/// `uri` and `response` are required, `nc`, `cnonce` and `qop` default to empty.
pub open spec fn digest_fields_of(parts: Seq<Seq<char>>) -> Option<DigestFieldsView> {
    let username = param_value(parts, "username"@);
    let realm = param_value(parts, "realm"@);
    let nonce = param_value(parts, "nonce"@);
    let uri = param_value(parts, "uri"@);
    let response = param_value(parts, "response"@);
    if username is Some && realm is Some && nonce is Some && uri is Some && response is Some {
        Some(
            DigestFieldsView {
                username: username->0,
                realm: realm->0,
                nonce: nonce->0,
                uri: uri->0,
                nc: or_empty(param_value(parts, "nc"@)),
                cnonce: or_empty(param_value(parts, "cnonce"@)),
                qop: or_empty(param_value(parts, "qop"@)),
                response: response->0,
            },
        )
    } else {
        None
    }
}

/// What an `Authorization` header value holds: after the scheme `Digest `,
/// comma-separated `key=value` parts.
pub open spec fn spec_parse_digest_header(header: Seq<char>) -> Option<DigestFieldsView> {
    let scheme = "Digest "@;
    if scheme.len() <= header.len() && header.take(scheme.len() as int) == scheme {
        digest_fields_of(split_on(header.skip(scheme.len() as int), ','))
    } else {
        None
    }
}

/// The text of an optional string.
pub open spec fn opt_text(v: Option<String>) -> Option<Seq<char>> {
    match v {
        Some(s) => Some(s@),
        None => None,
    }
}

/// The bounds of the key and of the value of the part `chars[lo..hi]`.
fn part_param(chars: &Vec<char>, lo: usize, hi: usize) -> (r: Option<(usize, usize, usize, usize)>)
    requires
        lo <= hi <= chars.len(),
    ensures
        match r {
            Some((ka, kb, va, vb)) => {
                &&& ka <= kb <= chars.len()
                &&& va <= vb <= chars.len()
                &&& digest_param(chars@.subrange(lo as int, hi as int)) == Some(
                    (chars@.subrange(ka as int, kb as int), chars@.subrange(va as int, vb as int)),
                )
            },
            None => digest_param(chars@.subrange(lo as int, hi as int)) is None,
        },
{
    let (a, b) = trim_bounds(chars, lo, hi, false);
    let ghost p = chars@.subrange(a as int, b as int);
    match find_char(chars, a, b, '=') {
        Some(i) => {
            let (ka, kb) = trim_bounds(chars, a, i, false);
            let (v1, v2) = trim_bounds(chars, i + 1, b, false);
            let (va, vb) = trim_bounds(chars, v1, v2, true);
            assert(p.take(i - a) =~= chars@.subrange(a as int, i as int));
            assert(p.skip(i - a + 1) =~= chars@.subrange(i + 1, b as int));
            Some((ka, kb, va, vb))
        },
        None => None,
    }
}

/// Sets `slot` to the text `value[va..vb]` where the key `chars[ka..kb]` is `name`.
fn record_if_named(
    slot: &mut Option<String>,
    chars: &Vec<char>,
    value: &str,
    name: &str,
    ka: usize,
    kb: usize,
    va: usize,
    vb: usize,
)
    requires
        ka <= kb <= chars.len(),
        va <= vb <= chars.len(),
        chars@ == value@,
    ensures
        opt_text(*final(slot)) == if chars@.subrange(ka as int, kb as int) == name@ {
            Some(chars@.subrange(va as int, vb as int))
        } else {
            opt_text(*old(slot))
        },
{
    if range_matches(chars, ka, kb, name) {
        *slot = Some(value.substring_char(va, vb).to_owned());
    }
}

/// Parses an `Authorization: Digest ...` header value into its fields.
pub fn parse_digest_header(value: &str) -> (r: Option<DigestFields>)
    ensures
        match r {
            Some(f) => spec_parse_digest_header(value@) == Some(f@),
            None => spec_parse_digest_header(value@) is None,
        },
{
    let chars = chars_of(value);
    if !starts_with(&chars, "Digest ") {
        return None;
    }
    let n = chars.len();
    let skip = "Digest ".unicode_len();
    let ghost rest = chars@.skip(skip as int);
    let mut username: Option<String> = None;
    let mut realm: Option<String> = None;
    let mut nonce: Option<String> = None;
    let mut uri: Option<String> = None;
    let mut nc: Option<String> = None;
    let mut cnonce: Option<String> = None;
    let mut qop: Option<String> = None;
    let mut response: Option<String> = None;
    let mut start = skip;
    let ghost mut done: Seq<Seq<char>> = Seq::empty();
    assert(rest =~= chars@.subrange(start as int, n as int));
    loop
        invariant_except_break
            split_on(rest, ',') == done + split_on(chars@.subrange(start as int, n as int), ','),
        invariant
            skip <= start <= n == chars@.len(),
            chars@ == value@,
            rest == chars@.skip(skip as int),
            opt_text(username) == param_value(done, "username"@),
            opt_text(realm) == param_value(done, "realm"@),
            opt_text(nonce) == param_value(done, "nonce"@),
            opt_text(uri) == param_value(done, "uri"@),
            opt_text(nc) == param_value(done, "nc"@),
            opt_text(cnonce) == param_value(done, "cnonce"@),
            opt_text(qop) == param_value(done, "qop"@),
            opt_text(response) == param_value(done, "response"@),
        ensures
            split_on(rest, ',') == done,
        decreases n - start,
    {
        let ghost tail = chars@.subrange(start as int, n as int);
        let found = find_char(&chars, start, n, ',');
        let end = match found {
            Some(j) => j,
            None => n,
        };
        let ghost part = chars@.subrange(start as int, end as int);
        let ghost before = done;
        if let Some((ka, kb, va, vb)) = part_param(&chars, start, end) {
            record_if_named(&mut username, &chars, value, "username", ka, kb, va, vb);
            record_if_named(&mut realm, &chars, value, "realm", ka, kb, va, vb);
            record_if_named(&mut nonce, &chars, value, "nonce", ka, kb, va, vb);
            record_if_named(&mut uri, &chars, value, "uri", ka, kb, va, vb);
            record_if_named(&mut nc, &chars, value, "nc", ka, kb, va, vb);
            record_if_named(&mut cnonce, &chars, value, "cnonce", ka, kb, va, vb);
            record_if_named(&mut qop, &chars, value, "qop", ka, kb, va, vb);
            record_if_named(&mut response, &chars, value, "response", ka, kb, va, vb);
        }
        proof {
            done = done.push(part);
            assert(done.drop_last() =~= before);
        }
        match found {
            Some(j) => {
                proof {
                    let i = choose|i: int| crate::text::is_first_index(tail, ',', i);
                    assert(i == j - start);
                    assert(tail.take(i) =~= part);
                    assert(tail.skip(i + 1) =~= chars@.subrange(j + 1, n as int));
                    assert(split_on(tail, ',') == seq![part] + split_on(
                        chars@.subrange(j + 1, n as int),
                        ',',
                    ));
                    assert(before + (seq![part] + split_on(chars@.subrange(j + 1, n as int), ','))
                        =~= done + split_on(chars@.subrange(j + 1, n as int), ','));
                }
                start = j + 1;
            },
            None => {
                proof {
                    assert(tail =~= part);
                    assert(split_on(tail, ',') == seq![part]);
                    assert(before + seq![part] =~= done);
                }
                break;
            },
        }
    }
    if username.is_some() && realm.is_some() && nonce.is_some() && uri.is_some()
        && response.is_some() {
        Some(
            DigestFields {
                username: username.unwrap(),
                realm: realm.unwrap(),
                nonce: nonce.unwrap(),
                uri: uri.unwrap(),
                nc: text_or_empty(nc),
                cnonce: text_or_empty(cnonce),
                qop: text_or_empty(qop),
                response: response.unwrap(),
            },
        )
    } else {
        None
    }
}

/// The text, or empty text where there is none.
fn text_or_empty(v: Option<String>) -> (r: String)
    ensures
        r@ == or_empty(opt_text(v)),
{
    match v {
        Some(s) => s,
        None => String::new(),
    }
}

} // verus!
