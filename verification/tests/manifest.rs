use dkregistry::errors::Error;
use dkregistry::mediatypes::MediaTypes;
use dkregistry::v2::manifest::accept_header_values;
use dkregistry::v2::manifest::evaluate_media_type;
use dkregistry::v2::manifest::interpret_manifest_head;
use dkregistry::v2::manifest::manifest_fetch_plan;
use dkregistry::v2::manifest::manifest_get_status;
use dkregistry::v2::manifest::manifest_url;
use dkregistry::v2::manifest::Config;
use dkregistry::v2::manifest::ConfigBlob;
use dkregistry::v2::manifest::Layer;
use dkregistry::v2::manifest::Manifest;
use dkregistry::v2::manifest::ManifestKind;
use dkregistry::v2::manifest::ManifestList;
use dkregistry::v2::manifest::ManifestSchema1Signed;
use dkregistry::v2::manifest::ManifestSchema2Spec;
use dkregistry::v2::manifest::S2Layer;

fn sample_s1() -> ManifestSchema1Signed {
    ManifestSchema1Signed {
        schema_version: 1,
        name: "library/busybox".to_string(),
        tag: "latest".to_string(),
        architecture: "amd64".to_string(),
        fs_layers: vec![
            Layer { blob_sum: "sha256:cc".to_string() },
            Layer { blob_sum: "sha256:bb".to_string() },
            Layer { blob_sum: "sha256:aa".to_string() },
        ],
        history: vec![],
        signatures: vec![],
    }
}

fn sample_s2_spec() -> ManifestSchema2Spec {
    ManifestSchema2Spec {
        schema_version: 2,
        media_type: "application/vnd.docker.distribution.manifest.v2+json".to_string(),
        config: Config {
            media_type: "application/vnd.docker.container.image.v1+json".to_string(),
            size: 7023,
            digest: "sha256:c0".to_string(),
        },
        layers: vec![
            S2Layer {
                media_type: "application/vnd.docker.image.rootfs.diff.tar.gzip".to_string(),
                size: 1,
                digest: "sha256:aa".to_string(),
                urls: None,
            },
            S2Layer {
                media_type: "application/vnd.docker.image.rootfs.diff.tar.gzip".to_string(),
                size: 2,
                digest: "sha256:bb".to_string(),
                urls: None,
            },
        ],
    }
}

#[test]
fn manifest_url_shape() {
    assert_eq!(
        manifest_url("https://quay.io", "coreos/etcd", "v3.1.0"),
        "https://quay.io/v2/coreos/etcd/manifests/v3.1.0"
    );
}

#[test]
fn media_types_round_trip() {
    let wires = [
        "application/vnd.docker.distribution.manifest.v1+json",
        "application/vnd.docker.distribution.manifest.v1+prettyjws",
        "application/vnd.docker.distribution.manifest.v2+json",
        "application/vnd.docker.distribution.manifest.list.v2+json",
        "application/vnd.docker.image.rootfs.diff.tar.gzip",
        "application/vnd.docker.container.image.v1+json",
        "application/x-unknown-thing",
    ];
    for w in wires {
        assert_eq!(MediaTypes::from_str(w).to_string(), *w);
    }
    assert!(matches!(
        MediaTypes::from_str("application/vnd.docker.distribution.manifest.v2+json"),
        MediaTypes::ManifestV2S2
    ));
    assert!(matches!(
        MediaTypes::from_str("application/x-unknown-thing"),
        MediaTypes::Other(_)
    ));
}

#[test]
fn content_type_evaluation() {
    let mt = evaluate_media_type(
        Some("application/vnd.docker.distribution.manifest.v2+json"),
        "/v2/library/busybox/manifests/latest",
    )
    .unwrap();
    assert!(matches!(mt, MediaTypes::ManifestV2S2));

    assert!(matches!(
        evaluate_media_type(None, "/v2/library/busybox/manifests/latest"),
        Err(Error::MissingHeader(_))
    ));
}

#[test]
fn pulp_quirk_reads_as_signed_schema1() {
    let mt = evaluate_media_type(
        Some("application/x-troff-man"),
        "/pulp/docker/v2/library/busybox/manifests/latest",
    )
    .unwrap();
    assert!(matches!(mt, MediaTypes::ManifestV2S1Signed));

    let missing = evaluate_media_type(None, "/pulp/docker/v2/x/manifests/latest").unwrap();
    assert!(matches!(missing, MediaTypes::ManifestV2S1Signed));

    // A plausible content type from a pulp endpoint is still taken at
    // its word.
    let mt = evaluate_media_type(
        Some("application/vnd.docker.distribution.manifest.v2+json"),
        "/pulp/docker/v2/x/manifests/latest",
    )
    .unwrap();
    assert!(matches!(mt, MediaTypes::ManifestV2S2));
}

#[test]
fn head_probe_applies_statuses() {
    let mt = MediaTypes::ManifestV2S2;
    assert!(matches!(
        interpret_manifest_head(200, mt.clone()),
        Ok(Some(MediaTypes::ManifestV2S2))
    ));
    assert!(matches!(
        interpret_manifest_head(302, mt.clone()),
        Ok(Some(MediaTypes::ManifestV2S2))
    ));
    assert!(matches!(interpret_manifest_head(404, mt.clone()), Ok(None)));
    assert!(matches!(
        interpret_manifest_head(500, mt),
        Err(Error::UnexpectedHttpStatus(500))
    ));
}

#[test]
fn fetch_plan_dispatch() {
    assert_eq!(
        manifest_fetch_plan(&MediaTypes::ManifestV2S1Signed).unwrap(),
        ManifestKind::S1Signed
    );
    assert_eq!(
        manifest_fetch_plan(&MediaTypes::ManifestV2S2).unwrap(),
        ManifestKind::S2
    );
    assert_eq!(
        manifest_fetch_plan(&MediaTypes::ManifestList).unwrap(),
        ManifestKind::List
    );
    match manifest_fetch_plan(&MediaTypes::ImageLayer) {
        Err(Error::UnsupportedMediaType(s)) => {
            assert_eq!(s, "application/vnd.docker.image.rootfs.diff.tar.gzip")
        }
        other => panic!("expected unsupported media type, got {:?}", other),
    }

    assert!(manifest_get_status(200).is_ok());
    assert!(matches!(
        manifest_get_status(401),
        Err(Error::UnexpectedHttpStatus(401))
    ));
}

#[test]
fn schema1_layers_are_reversed() {
    let m = sample_s1();
    assert_eq!(
        m.get_layers(),
        vec!["sha256:aa".to_string(), "sha256:bb".to_string(), "sha256:cc".to_string()]
    );
}

#[test]
fn schema2_layers_keep_wire_order() {
    let spec = sample_s2_spec();
    assert_eq!(spec.config().digest, "sha256:c0");
    assert_eq!(
        spec.config_blob_url("https://quay.io", "coreos/etcd"),
        "https://quay.io/v2/coreos/etcd/blobs/sha256:c0"
    );
    let m = spec.with_config_blob(ConfigBlob {
        architecture: "amd64".to_string(),
        os: "linux".to_string(),
        runtime_config: None,
    });
    assert_eq!(m.get_layers(), vec!["sha256:aa".to_string(), "sha256:bb".to_string()]);
    assert_eq!(m.architecture(), "amd64");
}

#[test]
fn layers_digests_checks_architecture() {
    let m = Manifest::S1Signed(sample_s1());
    assert_eq!(m.architectures().unwrap(), vec!["amd64".to_string()]);
    assert_eq!(
        m.layers_digests(None).unwrap(),
        vec!["sha256:aa".to_string(), "sha256:bb".to_string(), "sha256:cc".to_string()]
    );
    assert!(m.layers_digests(Some("amd64")).is_ok());
    assert!(matches!(
        m.layers_digests(Some("arm64")),
        Err(Error::Configuration(_))
    ));

    let list = Manifest::ML(ManifestList {
        schema_version: 2,
        media_type: "application/vnd.docker.distribution.manifest.list.v2+json".to_string(),
        manifests: vec![],
    });
    assert!(matches!(
        list.layers_digests(None),
        Err(Error::UnsupportedMediaType(_))
    ));
    assert!(matches!(list.architectures(), Err(Error::UnsupportedMediaType(_))));
}

#[test]
fn accept_values_carry_quality() {
    let types = vec![
        (MediaTypes::ManifestV2S2, Some(5u8)),
        (MediaTypes::ManifestV2S1Signed, Some(4u8)),
        (MediaTypes::ManifestList, None),
        (MediaTypes::ImageLayer, Some(10u8)),
    ];
    let values = accept_header_values(&types);
    assert_eq!(
        values,
        vec![
            "application/vnd.docker.distribution.manifest.v2+json; q=0.5".to_string(),
            "application/vnd.docker.distribution.manifest.v1+prettyjws; q=0.4".to_string(),
            "application/vnd.docker.distribution.manifest.list.v2+json".to_string(),
            "application/vnd.docker.image.rootfs.diff.tar.gzip; q=1.0".to_string(),
        ]
    );
}
