use sha2::Digest;

use dkregistry::errors::Error;
use dkregistry::v2::blobs::blob_url;
use dkregistry::v2::blobs::collect_blob_stream;
use dkregistry::v2::blobs::interpret_blob_fetch;
use dkregistry::v2::blobs::interpret_blob_head;
use dkregistry::v2::blobs::verify_blob_bytes;
use dkregistry::v2::blobs::BlobStream;
use dkregistry::v2::content_digest::hex_encode;
use dkregistry::v2::content_digest::ContentDigest;

const ABC_SHA256: &str = "ba7816bf8f01cfea414140de5dae2223b00361a396177a9cb410ff61f20015ad";
const EMPTY_SHA256: &str = "e3b0c44298fc1c149afbf4c8996fb92427ae41e4649b934ca495991b7852b855";

#[test]
fn blob_url_shape() {
    assert_eq!(
        blob_url("https://quay.io", "coreos/etcd", "sha256:00ff"),
        "https://quay.io/v2/coreos/etcd/blobs/sha256:00ff"
    );
}

#[test]
fn blob_head_is_pure_existence_probe() {
    assert!(interpret_blob_head(200));
    assert!(!interpret_blob_head(404));
    assert!(!interpret_blob_head(500));
}

#[test]
fn blob_fetch_statuses() {
    assert!(interpret_blob_fetch(200).is_ok());
    assert!(matches!(interpret_blob_fetch(404), Err(Error::Client(404))));
    assert!(matches!(
        interpret_blob_fetch(500),
        Err(Error::UnexpectedHttpStatus(500))
    ));
    assert!(matches!(
        interpret_blob_fetch(301),
        Err(Error::UnexpectedHttpStatus(301))
    ));
}

#[test]
fn verified_blob_hashes_to_its_digest() {
    let digest = format!("sha256:{}", ABC_SHA256);
    let blob = b"abc".to_vec();
    let out = verify_blob_bytes(digest.as_str(), blob.clone()).unwrap();
    assert_eq!(out, blob);

    let empty = verify_blob_bytes(format!("sha256:{}", EMPTY_SHA256).as_str(), Vec::new());
    assert!(empty.is_ok());
}

#[test]
fn digest_comparison_is_case_insensitive() {
    let digest = format!("sha256:{}", ABC_SHA256.to_uppercase());
    assert!(verify_blob_bytes(digest.as_str(), b"abc".to_vec()).is_ok());
}

#[test]
fn blob_integrity_failure() {
    let digest = format!("sha256:{}", "b".repeat(64));
    let r = verify_blob_bytes(digest.as_str(), b"abc".to_vec());
    match r {
        Err(Error::DigestMismatch { expected, computed }) => {
            assert_eq!(expected, "b".repeat(64));
            assert_eq!(computed, ABC_SHA256);
        }
        other => panic!("expected a digest mismatch, got {:?}", other),
    }
}

#[test]
fn digest_construction_errors() {
    assert!(matches!(
        ContentDigest::try_new("nocolonhere"),
        Err(Error::BadDigestFormat)
    ));
    assert!(matches!(
        ContentDigest::try_new("sha256:aa:bb"),
        Err(Error::BadDigestFormat)
    ));
    match ContentDigest::try_new("md5:00ff") {
        Err(Error::UnsupportedDigestAlgorithm(a)) => assert_eq!(a, "md5"),
        other => panic!("expected unsupported algorithm, got {:?}", other),
    }
}

#[test]
fn incremental_updates_match_one_shot() {
    let digest = format!("sha256:{}", ABC_SHA256);
    let mut cd = ContentDigest::try_new(digest.as_str()).unwrap();
    cd.update(b"a");
    cd.update(b"bc");
    assert!(cd.verify().is_ok());
}

#[test]
fn stream_concatenation_verifies_like_buffered() {
    let body: Vec<u8> = (0u8..=255).collect();
    let hex = hex_encode(sha2::Sha256::digest(&body).as_slice());
    let digest = format!("sha256:{}", hex);

    let chunks: Vec<Vec<u8>> = vec![
        body[..100].to_vec(),
        body[100..101].to_vec(),
        Vec::new(),
        body[101..].to_vec(),
    ];
    let streamed = collect_blob_stream(digest.as_str(), &chunks).unwrap();
    assert_eq!(streamed, body);

    let buffered = verify_blob_bytes(digest.as_str(), body.clone()).unwrap();
    assert_eq!(buffered, streamed);
}

#[test]
fn stream_mismatch_is_terminal_error() {
    let digest = format!("sha256:{}", "b".repeat(64));
    let chunks = vec![b"abc".to_vec()];
    assert!(matches!(
        collect_blob_stream(digest.as_str(), &chunks),
        Err(Error::DigestMismatch { .. })
    ));
}

#[test]
fn stream_verifies_exactly_once() {
    let digest = format!("sha256:{}", EMPTY_SHA256);
    let mut bs = BlobStream::new(digest.as_str()).unwrap();
    let first = bs.on_end();
    assert!(matches!(first, Some(Ok(()))));
    let second = bs.on_end();
    assert!(second.is_none());
    let after_end = bs.on_chunk(b"late");
    assert!(after_end.is_none());
}

#[test]
fn hex_encode_known_bytes() {
    assert_eq!(hex_encode(&[0xbe, 0xef]), "beef");
    assert_eq!(hex_encode(&[]), "");
    assert_eq!(hex_encode(&[0x00, 0x0a, 0xff]), "000aff");
}
