use dkregistry::credentials_from_auth;
use dkregistry::default_user_agent;
use dkregistry::errors::Error;
use dkregistry::resolve_index;
use dkregistry::v2::Client;
use dkregistry::v2::Config;

#[test]
fn build_uses_https_by_default() {
    let client = Client::configure().registry("quay.io").build().unwrap();
    assert_eq!(client.base_url, "https://quay.io");
    assert!(client.credentials.is_none());
    assert!(client.token.is_none());
    assert_eq!(client.user_agent.as_deref(), Some("camallo-dkregistry/0.0"));
}

#[test]
fn build_insecure_registry_uses_http() {
    let client = Client::configure()
        .registry("127.0.0.1:5000")
        .insecure_registry(true)
        .build()
        .unwrap();
    assert_eq!(client.base_url, "http://127.0.0.1:5000");
}

#[test]
fn build_merges_partial_credentials() {
    let client = Config::default()
        .username(Some("user".to_string()))
        .build()
        .unwrap();
    assert_eq!(
        client.credentials,
        Some(("user".to_string(), "".to_string()))
    );

    let client = Config::default()
        .password(Some("pw".to_string()))
        .build()
        .unwrap();
    assert_eq!(client.credentials, Some(("".to_string(), "pw".to_string())));

    let client = Config::default()
        .username(Some("user".to_string()))
        .password(Some("pw".to_string()))
        .build()
        .unwrap();
    assert_eq!(
        client.credentials,
        Some(("user".to_string(), "pw".to_string()))
    );
}

#[test]
fn custom_user_agent_is_kept() {
    let client = Config::default()
        .user_agent(Some("custom-ua/1.0".to_string()))
        .build()
        .unwrap();
    assert_eq!(client.user_agent.as_deref(), Some("custom-ua/1.0"));

    let client = Config::default().user_agent(None).build().unwrap();
    assert!(client.user_agent.is_none());
    assert_eq!(default_user_agent(), "camallo-dkregistry/0.0");
}

#[test]
fn set_token_and_authorization_header() {
    let mut client = Client::configure().build().unwrap();
    assert_eq!(client.authorization_header(), None);
    client.set_token(Some("sometoken"));
    assert_eq!(client.token.as_deref(), Some("sometoken"));
    assert_eq!(
        client.authorization_header(),
        Some("Bearer sometoken".to_string())
    );
    client.set_token(None);
    assert_eq!(client.token.as_deref(), Some("sometoken"));
}

#[test]
fn docker_hub_index_is_special_cased() {
    assert_eq!(resolve_index("docker.io"), "https://index.docker.io/v1/");
    assert_eq!(
        resolve_index("registry-1.docker.io"),
        "https://index.docker.io/v1/"
    );
    assert_eq!(resolve_index("quay.io"), "quay.io");
}

#[test]
fn credentials_decode_from_base64() {
    let auth = base64::encode("user:pass");
    assert_eq!(
        credentials_from_auth(auth.as_str()).unwrap(),
        (Some("user".to_string()), Some("pass".to_string()))
    );

    let auth = base64::encode(":pass");
    assert_eq!(
        credentials_from_auth(auth.as_str()).unwrap(),
        (None, Some("pass".to_string()))
    );

    let auth = base64::encode("user:");
    assert_eq!(
        credentials_from_auth(auth.as_str()).unwrap(),
        (Some("user".to_string()), None)
    );

    let auth = base64::encode("nocolon");
    assert_eq!(credentials_from_auth(auth.as_str()).unwrap(), (None, None));

    assert!(matches!(
        credentials_from_auth("!!!not-base64!!!"),
        Err(Error::Configuration(_))
    ));

    let auth = base64::encode([0xffu8, 0xfe, 0x00]);
    assert!(matches!(
        credentials_from_auth(auth.as_str()),
        Err(Error::Configuration(_))
    ));
}
