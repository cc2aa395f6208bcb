use dkregistry::errors::Error;
use dkregistry::v2::auth::interpret_auth_probe;
use dkregistry::v2::auth::login_needs_challenge;
use dkregistry::v2::auth::mask_token;
use dkregistry::v2::auth::parse_challenge_pairs;
use dkregistry::v2::auth::parse_hdr_bearer;
use dkregistry::v2::auth::token_endpoint_from_challenge;
use dkregistry::v2::auth::token_url;
use dkregistry::v2::auth::validate_login;
use dkregistry::v2::auth::TokenAuth;

#[test]
fn bearer_realm_parses_correctly() {
    let realm = "https://sat-r220-02.lab.eng.rdu2.redhat.com/v2/token";
    let service = "sat-r220-02.lab.eng.rdu2.redhat.com";
    let scope = "repository:registry:pull,push";

    let www_auth_header = format!(
        r#"Bearer realm="{}",service="{}",scope=""{}"#,
        realm, service, scope
    );
    let trimmed_header = www_auth_header.trim_start_matches("Bearer ");

    let parsed = parse_hdr_bearer(trimmed_header).unwrap();
    assert_eq!(parsed, (String::from(realm), Some(String::from(service))));
}

#[test]
fn bearer_challenge_parse() {
    let header =
        r#"Bearer realm="https://auth.example/token",service="registry.example",scope="repository:registry:pull,push""#;
    let trimmed = header.trim_start_matches("Bearer ");
    let (realm, service) = parse_hdr_bearer(trimmed).unwrap();
    assert_eq!(realm, "https://auth.example/token");
    assert_eq!(service, Some("registry.example".to_string()));
}

#[test]
fn challenge_pairs_tolerate_whitespace_and_order() {
    let a = r#"service="registry.example" ,   realm="https://auth.example/token""#;
    let (realm, service) = parse_hdr_bearer(a).unwrap();
    assert_eq!(realm, "https://auth.example/token");
    assert_eq!(service, Some("registry.example".to_string()));

    let pairs = parse_challenge_pairs(r#"  one="1" , two="2",three="3"  "#);
    assert_eq!(
        pairs,
        vec![
            ("one".to_string(), "1".to_string()),
            ("two".to_string(), "2".to_string()),
            ("three".to_string(), "3".to_string()),
        ]
    );
}

#[test]
fn challenge_malformed_fragments_yield_no_pairs() {
    assert_eq!(parse_challenge_pairs("abc"), vec![]);
    assert_eq!(parse_challenge_pairs(r#"realm="unterminated"#), vec![]);
    assert_eq!(parse_challenge_pairs("realm=unquoted"), vec![]);
    // A key is a run of lower-case letters immediately before `="`;
    // anything else before it is skipped.
    assert_eq!(
        parse_challenge_pairs(r#"x1y="v""#),
        vec![("y".to_string(), "v".to_string())]
    );
}

#[test]
fn challenge_unknown_keys_are_ignored() {
    let input = r#"realm="r",unknownkey="v",error="denied""#;
    let (realm, service) = parse_hdr_bearer(input).unwrap();
    assert_eq!(realm, "r");
    assert_eq!(service, None);
}

#[test]
fn challenge_without_realm_is_rejected() {
    let r = parse_hdr_bearer(r#"service="registry.example""#);
    assert!(matches!(r, Err(Error::Protocol(_))));
}

#[test]
fn token_endpoint_requires_bearer_scheme() {
    let scopes = vec!["repository:library/busybox:pull".to_string()];
    let r = token_endpoint_from_challenge(r#"Basic realm="reg""#, &scopes);
    assert!(matches!(r, Err(Error::UnsupportedChallengeScheme(_))));
}

#[test]
fn token_endpoint_builds_full_url() {
    let scopes = vec![
        "repository:library/busybox:pull".to_string(),
        "repository:library/alpine:pull".to_string(),
    ];
    let header = r#"Bearer realm="https://auth.example/token",service="registry.example""#;
    let url = token_endpoint_from_challenge(header, &scopes).unwrap();
    assert_eq!(
        url,
        "https://auth.example/token?service=registry.example&scope=repository:library/busybox:pull&scope=repository:library/alpine:pull"
    );
}

#[test]
fn token_url_without_service_starts_query_with_scope() {
    let scopes = vec!["repository:foo:pull".to_string()];
    let url = token_url("https://auth.example/token", None, &scopes);
    assert_eq!(url, "https://auth.example/token?scope=repository:foo:pull");

    let bare = token_url("https://auth.example/token", None, &Vec::new());
    assert_eq!(bare, "https://auth.example/token");
}

#[test]
fn login_validation() {
    let good = TokenAuth {
        token: "sometoken".to_string(),
        expires_in: Some(300),
        issued_at: None,
        refresh_token: None,
    };
    assert!(validate_login(200, &good).is_ok());
    assert!(matches!(
        validate_login(503, &good),
        Err(Error::UnexpectedHttpStatus(503))
    ));

    let sentinel = TokenAuth {
        token: "unauthenticated".to_string(),
        expires_in: None,
        issued_at: None,
        refresh_token: None,
    };
    assert!(matches!(
        validate_login(200, &sentinel),
        Err(Error::Authentication(_))
    ));

    let empty = TokenAuth {
        token: "".to_string(),
        expires_in: None,
        issued_at: None,
        refresh_token: None,
    };
    assert!(matches!(
        validate_login(200, &empty),
        Err(Error::Authentication(_))
    ));
}

#[test]
fn token_masking_keeps_ends_only() {
    assert_eq!(mask_token("12345678"), "1******8");
    assert_eq!(mask_token("ab"), "ab");
    assert_eq!(mask_token("x"), "*");
    assert_eq!(mask_token("secret-bearer-token"), "s*****************n");
}

#[test]
fn auth_probe_statuses() {
    assert_eq!(interpret_auth_probe(200).unwrap(), true);
    assert_eq!(interpret_auth_probe(401).unwrap(), false);
    assert!(matches!(
        interpret_auth_probe(500),
        Err(Error::UnexpectedHttpStatus(500))
    ));
}

#[test]
fn anonymous_access_skips_the_challenge() {
    assert!(!login_needs_challenge(200));
    assert!(login_needs_challenge(401));
    assert!(login_needs_challenge(403));
}
