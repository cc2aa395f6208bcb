use std::str::FromStr;

use dkregistry::reference::parse_url;
use dkregistry::reference::Reference;
use dkregistry::reference::Version;

#[test]
fn valid_references() {
    let tcases = vec![
        "library/busybox",
        "busybox",
        "busybox:tag",
        "busybox:5000",
        "busybox@sha256:ffffffffffffffffffffffffffffffffffffffffffffffffffffffffffffffff",
        "registry.example.com:5000/library/busybox:5000",
    ];

    for t in tcases {
        let r = Reference::from_str(t);
        assert!(r.is_ok(), "{}", t);
        let repo = r.unwrap().repository();
        assert_eq!(repo.as_str(), "library/busybox", "{}", t);
    }
}

#[test]
fn invalid_references() {
    let tcases: Vec<String> = vec!["".into(), "L".repeat(128), ":justatag".into()];

    for t in tcases.iter() {
        let r = Reference::from_str(t);
        assert!(r.is_err(), "{}", t);
    }
}

#[test]
fn empty_repository_is_rejected() {
    for t in ["quay.io/", "docker://quay.io/", "registry.example.com:5000/"] {
        let r = parse_url(t);
        assert!(r.is_err(), "{}", t);
    }
}

#[test]
fn first_segment_is_the_registry() {
    let r = parse_url("reg.example.com/a/b/c:v1").unwrap();
    assert_eq!(r.registry(), "reg.example.com");
    assert_eq!(r.repository(), "a/b/c");
    assert_eq!(r.version(), "v1");

    let r = parse_url("reg.example.com:5000/ns/deep/path/img").unwrap();
    assert_eq!(r.registry(), "reg.example.com:5000");
    assert_eq!(r.repository(), "ns/deep/path/img");
    assert_eq!(r.version(), "latest");
}

#[test]
fn hostname_without_namespace() {
    let dkr_ref = Reference::from_str(
        "sat-r220-02.lab.eng.rdu2.redhat.com:5000/default_organization-custom-ocp",
    )
    .unwrap();

    assert_eq!(
        dkr_ref.registry(),
        "sat-r220-02.lab.eng.rdu2.redhat.com:5000"
    );
    assert_eq!(dkr_ref.repository(), "default_organization-custom-ocp");
    assert_eq!(dkr_ref.version(), "latest");
}

#[test]
fn bare_name_resolves_to_hub_defaults() {
    for input in ["busybox", "library/busybox", "docker://busybox", "busybox:latest"] {
        let r = parse_url(input).unwrap();
        assert_eq!(r.registry(), "registry-1.docker.io", "{}", input);
        assert_eq!(r.repository(), "library/busybox", "{}", input);
        assert_eq!(r.version(), "latest", "{}", input);
    }
}

#[test]
fn canonical_string_round_trips() {
    let cases = vec![
        "docker://registry.example.com:5000/library/busybox:tag",
        "quay.io/coreos/etcd:v3.1.0",
        "docker://busybox@sha256:ffffffffffffffffffffffffffffffffffffffffffffffffffffffffffffffff",
        "sat-r220-02.lab.eng.rdu2.redhat.com:5000/default_organization-custom-ocp",
        "reg.example.com/a/b/c:v1",
        "busybox",
    ];
    for input in cases {
        let first = parse_url(input).unwrap();
        let second = parse_url(first.to_canonical_string().as_str()).unwrap();
        assert_eq!(first.registry(), second.registry(), "{}", input);
        assert_eq!(first.repository(), second.repository(), "{}", input);
        assert_eq!(first.version(), second.version(), "{}", input);
    }
}

#[test]
fn version_separator_rules() {
    let tagged = parse_url("registry.example.com:5000/ns/img:1.2").unwrap();
    assert_eq!(tagged.version(), "1.2");

    let digested = parse_url("quay.io/ns/img@sha256:00ff").unwrap();
    assert_eq!(digested.version(), "sha256:00ff");

    let port_only = parse_url("registry.example.com:5000/ns/img").unwrap();
    assert_eq!(port_only.version(), "latest");
    assert_eq!(port_only.registry(), "registry.example.com:5000");
    assert_eq!(port_only.repository(), "ns/img");
}

#[test]
fn reference_new_applies_defaults() {
    let r = Reference::new(None, "library/busybox".to_string(), None);
    assert_eq!(r.registry(), "registry-1.docker.io");
    assert_eq!(r.repository(), "library/busybox");
    assert_eq!(r.version(), "latest");
    assert_eq!(r.to_raw_string(), "");
    assert_eq!(
        r.to_url(),
        "docker://registry-1.docker.io/library/busybox:latest"
    );

    let d = Reference::new(
        Some("quay.io".to_string()),
        "coreos/etcd".to_string(),
        Some(Version::Digest("sha256".to_string(), "00ff".to_string())),
    );
    assert_eq!(d.registry(), "quay.io");
    assert_eq!(d.version(), "sha256:00ff");
    assert_eq!(d.to_url(), "docker://quay.io/coreos/etcd@sha256:00ff");
}
