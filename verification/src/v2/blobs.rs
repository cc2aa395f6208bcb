//! Content-addressed blob retrieval: URL building, response
//! interpretation, and digest-verified delivery in buffered and
//! streaming form.

use vstd::prelude::*;

use crate::errors::Error;
use crate::v2::content_digest::spec_digest_matches;
use crate::v2::content_digest::spec_digest_parts;
use crate::v2::content_digest::spec_hex_encode;
use crate::v2::content_digest::spec_hex_fold;
use crate::v2::content_digest::sha256_of;
use crate::v2::content_digest::ContentDigest;

verus! {

/// The blob endpoint for a repository and digest:
/// `{base}/v2/{name}/blobs/{digest}`.
pub fn blob_url(base: &str, name: &str, digest: &str) -> (r: String)
    ensures
        r@ == base@ + "/v2/"@ + name@ + "/blobs/"@ + digest@,
{
    let mut r = String::from_str(base);
    r.append("/v2/");
    r.append(name);
    r.append("/blobs/");
    r.append(digest);
    r
}

/// A `HEAD` on a blob is a pure existence probe: only 200 means the
/// blob is there; every other status reads as absent.
pub fn interpret_blob_head(status: u16) -> (r: bool)
    ensures
        r == (status == 200),
{
    status == 200
}

/// Whether a blob `GET` response may be consumed: success statuses
/// are, 4xx becomes a typed client error, and everything else —
/// including a redirect the transport failed to follow — is an
/// unexpected status.
pub fn interpret_blob_fetch(status: u16) -> (r: Result<(), Error>)
    ensures
        200 <= status < 300 ==> r is Ok,
        400 <= status < 500 ==> r == Err::<(), Error>(Error::Client(status)),
        !(200 <= status < 300) && !(400 <= status < 500) ==> r == Err::<(), Error>(
            Error::UnexpectedHttpStatus(status),
        ),
{
    if 200 <= status && status < 300 {
        Ok(())
    } else if 400 <= status && status < 500 {
        Err(Error::Client(status))
    } else {
        Err(Error::UnexpectedHttpStatus(status))
    }
}

/// The outcome `verify_blob_bytes` and `collect_blob_stream` owe for
/// content `data` under the declared `digest`: the exact error for a
/// digest that does not parse or names an unsupported algorithm or
/// does not match, and success otherwise.
pub open spec fn spec_blob_outcome<T>(digest: Seq<char>, data: Seq<u8>, r: Result<
    T,
    Error,
>) -> bool {
    match spec_digest_parts(digest) {
        None => r == Err::<T, Error>(Error::BadDigestFormat),
        Some((algo, hex)) => {
            if algo != "sha256"@ {
                r matches Err(e) && e matches Error::UnsupportedDigestAlgorithm(s) && s@
                    == algo
            } else if spec_hex_fold(hex) == spec_hex_encode(sha256_of(data)) {
                r is Ok
            } else {
                r matches Err(e) && e matches Error::DigestMismatch { expected, computed }
                    && expected@ == spec_hex_fold(hex) && computed@ == spec_hex_encode(
                    sha256_of(data),
                )
            }
        },
    }
}

/// Check a fully buffered blob against its declared digest and hand
/// the bytes back.
///
/// For every successful call, hashing the returned bytes under the
/// algorithm of `digest` yields the hex portion of `digest`.
pub fn verify_blob_bytes(digest: &str, blob: Vec<u8>) -> (r: Result<Vec<u8>, Error>)
    ensures
        spec_blob_outcome(digest@, blob@, r),
        r matches Ok(b) ==> b@ == blob@ && spec_digest_matches(digest@, blob@),
{
    let mut cd = match ContentDigest::try_new(digest) {
        Ok(cd) => cd,
        Err(e) => {
            return Err(e);
        },
    };
    cd.update(blob.as_slice());
    proof {
        assert(Seq::<u8>::empty() + blob@ =~= blob@);
    }
    match cd.verify() {
        Ok(()) => Ok(blob),
        Err(e) => Err(e),
    }
}

/// The streaming counterpart of a [`ContentDigest`]: it hashes each
/// chunk as it is delivered, and verifies exactly once, at natural
/// end-of-stream. Once ended it stays ended.
#[derive(Debug)]
pub struct BlobStream {
    /// The verifier, taken out by the end-of-stream step.
    pub digest: Option<ContentDigest>,
}

impl BlobStream {
    /// Bind a stream verifier to a digest string.
    pub fn new(digest: &str) -> (r: Result<BlobStream, Error>)
        ensures
            match spec_digest_parts(digest@) {
                None => r == Err::<BlobStream, Error>(Error::BadDigestFormat),
                Some((algo, hex)) => {
                    if algo == "sha256"@ {
                        r matches Ok(bs) && bs.digest matches Some(cd) && cd.expected_hex@
                            == hex && cd.received@ == Seq::<u8>::empty()
                    } else {
                        r matches Err(e) && e matches Error::UnsupportedDigestAlgorithm(s)
                            && s@ == algo
                    }
                },
            },
    {
        match ContentDigest::try_new(digest) {
            Ok(cd) => Ok(BlobStream { digest: Some(cd) }),
            Err(e) => Err(e),
        }
    }

    /// A chunk arrived: hash it and pass it on. After end-of-stream,
    /// nothing is emitted.
    pub fn on_chunk(&mut self, chunk: &[u8]) -> (r: Option<Vec<u8>>)
        ensures
            match old(self).digest {
                Some(cd) => {
                    &&& final(self).digest matches Some(cd2) && cd2.received@ == cd.received@
                        + chunk@ && cd2.expected_hex == cd.expected_hex && cd2.algorithm
                        == cd.algorithm
                    &&& r matches Some(c) && c@ == chunk@
                },
                None => final(self).digest is None && r is None,
            },
    {
        match &mut self.digest {
            Some(cd) => {
                cd.update(chunk);
                Some(vstd::slice::slice_to_vec(chunk))
            },
            None => None,
        }
    }

    /// The upstream ended: run verification, exactly once. `None`
    /// means the stream had already ended and nothing was checked
    /// again.
    pub fn on_end(&mut self) -> (r: Option<Result<(), Error>>)
        ensures
            final(self).digest is None,
            match old(self).digest {
                Some(cd) => {
                    &&& spec_hex_fold(cd.expected_hex@) == spec_hex_encode(
                        sha256_of(cd.received@),
                    ) ==> (r matches Some(res) && res is Ok)
                    &&& spec_hex_fold(cd.expected_hex@) != spec_hex_encode(
                        sha256_of(cd.received@),
                    ) ==> (r matches Some(res) && res matches Err(e) && e
                        matches Error::DigestMismatch { expected, computed } && expected@
                        == spec_hex_fold(cd.expected_hex@) && computed@ == spec_hex_encode(
                        sha256_of(cd.received@),
                    ))
                },
                None => r is None,
            },
    {
        match self.digest.take() {
            Some(cd) => Some(cd.verify()),
            None => None,
        }
    }
}

/// Drive a fresh blob stream over `chunks` to natural completion.
///
/// The delivered bytes are exactly the concatenation of the chunks,
/// in order; the end-of-stream verification succeeds exactly when that
/// concatenation hashes to the declared digest.
pub fn collect_blob_stream(digest: &str, chunks: &Vec<Vec<u8>>) -> (r: Result<Vec<u8>, Error>)
    ensures
        spec_blob_outcome(digest@, chunks@.map_values(|c: Vec<u8>| c@).flatten(), r),
        r matches Ok(b) ==> b@ == chunks@.map_values(|c: Vec<u8>| c@).flatten()
            && spec_digest_matches(digest@, b@),
{
    let ghost all = chunks@.map_values(|c: Vec<u8>| c@);
    let mut bs = match BlobStream::new(digest) {
        Ok(bs) => bs,
        Err(e) => {
            return Err(e);
        },
    };
    let mut out: Vec<u8> = Vec::new();
    let ghost cd0 = bs.digest.unwrap();
    let n = chunks.len();
    let mut i: usize = 0;
    proof {
        assert(all.take(0).flatten() =~= Seq::<u8>::empty());
    }
    while i < n
        invariant
            n == chunks@.len(),
            0 <= i <= n,
            all == chunks@.map_values(|c: Vec<u8>| c@),
            bs.digest matches Some(cd) && cd.received@ == all.take(i as int).flatten()
                && cd.expected_hex == cd0.expected_hex && cd.algorithm == cd0.algorithm,
            out@ == all.take(i as int).flatten(),
        decreases n - i,
    {
        let emitted = bs.on_chunk(chunks[i].as_slice());
        match emitted {
            Some(mut c) => {
                out.append(&mut c);
            },
            None => (),
        }
        proof {
            all.take(i as int).lemma_flatten_push(all[i as int]);
            assert(all.take(i + 1) =~= all.take(i as int).push(all[i as int]));
        }
        i += 1;
    }
    proof {
        assert(all.take(n as int) =~= all);
    }
    match bs.on_end() {
        Some(Ok(())) => Ok(out),
        Some(Err(e)) => Err(e),
        None => Err(Error::BadDigestFormat),
    }
}

} // verus!
