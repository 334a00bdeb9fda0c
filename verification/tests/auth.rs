use remoteapi_test::auth::{
    parse_digest_header, validate, AuthDecision, DigestAuthConfig, DigestFields, UserEntry,
};

fn make_config() -> DigestAuthConfig {
    DigestAuthConfig::new(
        "Remote API".to_string(),
        vec![UserEntry { username: "admin".to_string(), password: "password".to_string() }],
    )
}

fn md5_hex(text: &str) -> String {
    format!("{:x}", md5::compute(text))
}

#[test]
fn ha1_is_md5_of_username_realm_password() {
    let config = make_config();
    let expected = format!("{:x}", md5::compute("admin:Remote API:password"));
    assert_eq!(config.user_ha1("admin").unwrap(), expected);
}

#[test]
fn nonce_can_be_issued_and_consumed_once() {
    let mut config = make_config();
    let nonce = config.issue_nonce();
    assert!(config.consume_nonce(&nonce));
    assert!(!config.consume_nonce(&nonce));
}

#[test]
fn parse_valid_digest_header() {
    let hdr = String::from(r#"Digest username="admin", realm="Remote API", "#)
        + r#"nonce="abc123", uri="/api/v1/hello", "#
        + r#"nc=00000001, cnonce="xyz789", qop=auth, response="deadbeef""#;
    let hdr = hdr.as_str();
    let f = parse_digest_header(hdr).unwrap();
    assert_eq!(f.username, "admin");
    assert_eq!(f.realm, "Remote API");
    assert_eq!(f.nonce, "abc123");
    assert_eq!(f.nc, "00000001");
    assert_eq!(f.cnonce, "xyz789");
    assert_eq!(f.qop, "auth");
    assert_eq!(f.response, "deadbeef");
}

#[test]
fn parse_rejects_basic_auth() {
    assert!(parse_digest_header("Basic dXNlcjpwYXNz").is_none());
}

#[test]
fn parse_rejects_incomplete_digest_header() {
    assert!(parse_digest_header(r#"Digest realm="test""#).is_none());
}

// ---------------------------------------------------------------------------

#[test]
fn user_ha1_unknown_user_is_none() {
    let config = make_config();
    assert!(config.user_ha1("guest").is_none());
}

#[test]
fn later_user_entry_replaces_earlier_one() {
    let config = DigestAuthConfig::new(
        "R".to_string(),
        vec![
            UserEntry { username: "u".to_string(), password: "one".to_string() },
            UserEntry { username: "u".to_string(), password: "two".to_string() },
        ],
    );
    assert_eq!(config.user_ha1("u").unwrap(), md5_hex("u:R:two"));
    assert_eq!(config.user_ha1("u").unwrap().len(), 32);
}

#[test]
fn issued_nonce_is_lower_hex_md5() {
    let mut config = make_config();
    let seed = [7u8; 16];
    let nonce = config.issue_nonce_with_seed(seed);
    assert_eq!(nonce, md5_hex(&format!("{:?}", seed)));
    assert_eq!(nonce.len(), 32);
    assert!(config.consume_nonce(&nonce));
}

#[test]
fn unknown_nonce_is_refused() {
    let mut config = make_config();
    assert!(!config.consume_nonce("never-issued"));
}

#[test]
fn www_authenticate_header_text() {
    let config = make_config();
    assert_eq!(
        config.www_authenticate_header("n1"),
        r#"Digest realm="Remote API", nonce="n1", algorithm=MD5, qop="auth""#
    );
}

#[test]
fn parse_takes_last_duplicate_and_defaults_optional_fields() {
    let f = parse_digest_header(
        "Digest username=a, realm=r, nonce=n, uri=/, response=x, username=\"b\", junk, =v",
    )
    .unwrap();
    assert_eq!(f.username, "b");
    assert_eq!(f.nc, "");
    assert_eq!(f.cnonce, "");
    assert_eq!(f.qop, "");
    assert_eq!(f.response, "x");
}

#[test]
fn parse_trims_whitespace_and_quotes() {
    let f = parse_digest_header(
        "Digest  username = \"\"ad min\"\" ,realm=\t\"x\"\u{3000},nonce=\"a=b\",uri=u,response=r",
    )
    .unwrap();
    assert_eq!(f.username, "ad min");
    assert_eq!(f.realm, "x");
    assert_eq!(f.nonce, "a=b");
}

#[test]
fn parse_requires_exact_scheme() {
    assert!(parse_digest_header("digest username=a, realm=r, nonce=n, uri=/, response=x").is_none());
    assert!(parse_digest_header("Digest").is_none());
}

fn response_for(
    password: &str,
    method: &str,
    uri: &str,
    nonce: &str,
    qop: Option<(&str, &str)>,
) -> String {
    let ha1 = md5_hex(&format!("admin:Remote API:{}", password));
    let ha2 = md5_hex(&format!("{}:{}", method, uri));
    match qop {
        Some((nc, cnonce)) => md5_hex(&format!("{}:{}:{}:{}:auth:{}", ha1, nonce, nc, cnonce, ha2)),
        None => md5_hex(&format!("{}:{}:{}", ha1, nonce, ha2)),
    }
}

fn fields(nonce: &str, response: String, qop: bool) -> DigestFields {
    DigestFields {
        username: "admin".to_string(),
        realm: "Remote API".to_string(),
        nonce: nonce.to_string(),
        uri: "/api/v1/hello".to_string(),
        nc: if qop { "00000001".to_string() } else { String::new() },
        cnonce: if qop { "c0ffee".to_string() } else { String::new() },
        qop: if qop { "auth".to_string() } else { String::new() },
        response,
    }
}

#[test]
fn validate_accepts_right_password_once_with_qop() {
    let mut config = make_config();
    let nonce = config.issue_nonce();
    let resp = response_for("password", "GET", "/api/v1/hello", &nonce, Some(("00000001", "c0ffee")));
    let f = fields(&nonce, resp, true);
    assert!(validate(&mut config, "GET", &f));
    assert!(!validate(&mut config, "GET", &f));
}

#[test]
fn validate_accepts_right_password_without_qop() {
    let mut config = make_config();
    let nonce = config.issue_nonce();
    let resp = response_for("password", "GET", "/api/v1/hello", &nonce, None);
    assert!(validate(&mut config, "GET", &fields(&nonce, resp, false)));
}

#[test]
fn validate_refuses_wrong_password_and_keeps_nonce() {
    let mut config = make_config();
    let nonce = config.issue_nonce();
    let resp = response_for("wrong", "GET", "/api/v1/hello", &nonce, None);
    assert!(!validate(&mut config, "GET", &fields(&nonce, resp, false)));
    assert!(config.consume_nonce(&nonce));
}

#[test]
fn validate_refuses_other_method_or_realm() {
    let mut config = make_config();
    let nonce = config.issue_nonce();
    let resp = response_for("password", "GET", "/api/v1/hello", &nonce, None);
    assert!(!validate(&mut config, "POST", &fields(&nonce, resp.clone(), false)));
    let mut f = fields(&nonce, resp, false);
    f.realm = "Other".to_string();
    assert!(!validate(&mut config, "GET", &f));
}

#[test]
fn validate_refuses_unissued_nonce() {
    let mut config = make_config();
    let resp = response_for("password", "GET", "/api/v1/hello", "made-up", None);
    assert!(!validate(&mut config, "GET", &fields("made-up", resp, false)));
}

#[test]
fn check_request_challenges_then_admits() {
    let mut config = make_config();
    let nonce = match config.check_request("GET", None) {
        AuthDecision::Challenge { nonce, www_authenticate } => {
            assert_eq!(
                www_authenticate,
                format!(r#"Digest realm="Remote API", nonce="{}", algorithm=MD5, qop="auth""#, nonce)
            );
            nonce
        }
        AuthDecision::Allow => panic!("a request without credentials was let in"),
    };
    let resp = response_for("password", "GET", "/api/v1/hello", &nonce, Some(("00000001", "c0ffee")));
    let header = format!(
        r#"Digest username="admin", realm="Remote API", nonce="{}", uri="/api/v1/hello", nc=00000001, cnonce="c0ffee", qop=auth, response="{}""#,
        nonce, resp
    );
    assert!(matches!(config.check_request("GET", Some(&header)), AuthDecision::Allow));
    assert!(matches!(
        config.check_request("GET", Some(&header)),
        AuthDecision::Challenge { .. }
    ));
}

#[test]
fn authorize_refuses_basic_scheme() {
    let mut config = make_config();
    assert!(!config.authorize("GET", Some("Basic dXNlcjpwYXNz")));
}

#[test]
fn replay_refused_after_other_requests() {
    let mut config = make_config();
    let n1 = config.issue_nonce();
    let f1 = fields(&n1, response_for("password", "GET", "/api/v1/hello", &n1, None), false);
    assert!(validate(&mut config, "GET", &f1));
    let n2 = config.issue_nonce();
    let f2 = fields(&n2, response_for("password", "GET", "/api/v1/hello", &n2, None), false);
    assert!(validate(&mut config, "GET", &f2));
    let _n3 = config.issue_nonce();
    assert!(!validate(&mut config, "GET", &f1));
    assert!(!validate(&mut config, "GET", &f2));
}

#[test]
fn realm_and_ha1_length() {
    let config = make_config();
    assert_eq!(config.realm(), "Remote API");
    assert_eq!(config.user_ha1("admin").unwrap().len(), 32);
}
