use dkregistry::errors::Error;
use dkregistry::v2::ensure_v2_outcome;
use dkregistry::v2::interpret_v2_probe;
use dkregistry::v2::is_v2_supported_outcome;
use dkregistry::v2::retry_delay_ms;

#[test]
fn v2_probe_ok() {
    let probe = interpret_v2_probe(200, Some("registry/2.0"));
    assert_eq!(probe.as_ref().unwrap(), &(true, true));
    assert_eq!(is_v2_supported_outcome(probe).unwrap(), true);
}

#[test]
fn v2_probe_unauthorized_still_supported() {
    let probe = interpret_v2_probe(401, Some("registry/2.0"));
    assert_eq!(probe.as_ref().unwrap(), &(true, false));
    assert_eq!(is_v2_supported_outcome(probe).unwrap(), true);
}

#[test]
fn v2_probe_not_found_means_unsupported() {
    let probe = interpret_v2_probe(404, Some("registry/2.0"));
    assert!(matches!(probe, Err(Error::UnexpectedHttpStatus(404))));
    let probe = interpret_v2_probe(404, Some("registry/2.0"));
    assert_eq!(is_v2_supported_outcome(probe).unwrap(), false);
}

#[test]
fn v2_probe_forbidden_means_unsupported() {
    let probe = interpret_v2_probe(403, Some("registry/2.0"));
    assert_eq!(is_v2_supported_outcome(probe).unwrap(), false);
}

#[test]
fn v2_probe_missing_header_means_unsupported() {
    let probe = interpret_v2_probe(200, None);
    assert!(matches!(probe, Err(Error::UnexpectedHttpStatus(200))));
    let probe = interpret_v2_probe(200, None);
    assert_eq!(is_v2_supported_outcome(probe).unwrap(), false);
}

#[test]
fn v2_probe_wrong_version_value() {
    let probe = interpret_v2_probe(200, Some("registry/1.0"));
    assert_eq!(probe.unwrap(), (false, true));
}

#[test]
fn ensure_v2_errors_when_unsupported() {
    assert!(ensure_v2_outcome(true).is_ok());
    assert!(matches!(ensure_v2_outcome(false), Err(Error::V2NotSupported)));
}

#[test]
fn retry_only_on_too_many_requests() {
    assert_eq!(retry_delay_ms(429, 0, 0, 60_000), Some(100));
    assert_eq!(retry_delay_ms(429, 1, 5, 60_000), Some(200));
    assert_eq!(retry_delay_ms(429, 3, 5, 60_000), Some(800));
    // The exponent is capped, so the delay stays bounded.
    assert_eq!(retry_delay_ms(429, 40, 5, 60_000), Some(409_600));
    // The elapsed-time bound ends retrying.
    assert_eq!(retry_delay_ms(429, 0, 60_000, 60_000), None);
    // Other statuses are not retriable.
    assert_eq!(retry_delay_ms(500, 0, 0, 60_000), None);
    assert_eq!(retry_delay_ms(200, 0, 0, 60_000), None);
}
