//! Content-addressed digest verification.
//!
//! A [`ContentDigest`] is bound to a declared `algorithm:hex` string.
//! Byte chunks are fed to it incrementally; the terminal `verify`
//! hashes everything received and compares against the declared hex,
//! case-insensitively.

use vstd::prelude::*;

use sha2::Digest;

use crate::errors::Error;
use crate::strutil::spec_find;
use crate::strutil::spec_rfind;
use crate::strutil::str_eq;
use crate::strutil::substr_to_string;

verus! {

/// The SHA-256 digest of a byte sequence.
pub uninterp spec fn sha256_of(data: Seq<u8>) -> Seq<u8>;

/// Relies on `sha2::Sha256` (the `Digest::digest` one-shot): the
/// SHA-256 digest is a function of the input bytes alone, 32 bytes
/// long.
#[verifier::external_body]
fn sha256_digest(data: &[u8]) -> (r: Vec<u8>)
    ensures
        r@ == sha256_of(data@),
        r@.len() == 32,
{
    sha2::Sha256::digest(data).to_vec()
}

/// The lower-case hex digit for a value below 16.
pub open spec fn spec_hex_digit(d: u8) -> char {
    if d < 10 {
        ((d + 48) as u8) as char
    } else {
        ((d + 87) as u8) as char
    }
}

/// Lower-case hex encoding of a byte sequence, two digits per byte.
pub open spec fn spec_hex_encode(data: Seq<u8>) -> Seq<char>
    decreases data.len(),
{
    if data.len() == 0 {
        Seq::empty()
    } else {
        spec_hex_encode(data.drop_last()) + seq![
            spec_hex_digit(data.last() / 16),
            spec_hex_digit(data.last() % 16),
        ]
    }
}

/// Fold the upper-case hex letters `A`–`F` to lower case, leaving
/// every other character alone.
pub open spec fn spec_hex_fold_char(c: char) -> char {
    if c == 'A' {
        'a'
    } else if c == 'B' {
        'b'
    } else if c == 'C' {
        'c'
    } else if c == 'D' {
        'd'
    } else if c == 'E' {
        'e'
    } else if c == 'F' {
        'f'
    } else {
        c
    }
}

pub open spec fn spec_hex_fold(s: Seq<char>) -> Seq<char> {
    s.map_values(|c: char| spec_hex_fold_char(c))
}

/// Split `algorithm:hex` at its colon; `None` unless the string holds
/// exactly one colon.
pub open spec fn spec_digest_parts(digest: Seq<char>) -> Option<(Seq<char>, Seq<char>)> {
    match spec_find(digest, ':') {
        Some(i) => if spec_rfind(digest, ':') == Some(i) {
            Some((digest.take(i), digest.skip(i + 1)))
        } else {
            None
        },
        None => None,
    }
}

/// Does `data` hash, under the algorithm declared in `digest`, to the
/// declared hex (compared case-insensitively)?
pub open spec fn spec_digest_matches(digest: Seq<char>, data: Seq<u8>) -> bool {
    match spec_digest_parts(digest) {
        Some((algo, hex)) => algo == "sha256"@ && spec_hex_fold(hex) == spec_hex_encode(
            sha256_of(data),
        ),
        None => false,
    }
}

/// Lower-case hex encoding of a byte slice.
pub fn hex_encode(data: &[u8]) -> (r: String)
    ensures
        r@ == spec_hex_encode(data@),
{
    let mut r = String::new();
    let n = data.len();
    let mut i: usize = 0;
    while i < n
        invariant
            n == data@.len(),
            0 <= i <= n,
            r@ == spec_hex_encode(data@.take(i as int)),
        decreases n - i,
    {
        let b = data[i];
        let hi: u8 = b / 16;
        let lo: u8 = b % 16;
        let hc: char = if hi < 10 {
            (hi + 48) as char
        } else {
            (hi + 87) as char
        };
        let lc: char = if lo < 10 {
            (lo + 48) as char
        } else {
            (lo + 87) as char
        };
        r.push(hc);
        r.push(lc);
        proof {
            let t = data@.take(i + 1);
            assert(t.drop_last() =~= data@.take(i as int));
            assert(t.last() == data@[i as int]);
            assert(spec_hex_encode(t) == spec_hex_encode(t.drop_last()) + seq![
                spec_hex_digit(t.last() / 16),
                spec_hex_digit(t.last() % 16),
            ]);
            assert(r@ =~= spec_hex_encode(data@.take(i as int)) + seq![hc, lc]);
        }
        i += 1;
    }
    proof {
        assert(data@.take(n as int) =~= data@);
    }
    r
}

/// Fold the hex letters of a string to lower case.
pub fn hex_fold(s: &str) -> (r: String)
    ensures
        r@ == spec_hex_fold(s@),
{
    let mut r = String::new();
    let n = s.unicode_len();
    let mut i: usize = 0;
    while i < n
        invariant
            n == s@.len(),
            0 <= i <= n,
            r@ == spec_hex_fold(s@.take(i as int)),
        decreases n - i,
    {
        let c = s.get_char(i);
        let f: char = if c == 'A' {
            'a'
        } else if c == 'B' {
            'b'
        } else if c == 'C' {
            'c'
        } else if c == 'D' {
            'd'
        } else if c == 'E' {
            'e'
        } else if c == 'F' {
            'f'
        } else {
            c
        };
        r.push(f);
        proof {
            assert(s@.take(i + 1).map_values(|c: char| spec_hex_fold_char(c)) =~= s@.take(
                i as int,
            ).map_values(|c: char| spec_hex_fold_char(c)).push(f));
        }
        i += 1;
    }
    proof {
        assert(s@.take(n as int) =~= s@);
    }
    r
}

/// Supported digest algorithms.
#[derive(Debug, Clone, Copy, PartialEq, Eq, Structural)]
pub enum DigestAlgorithm {
    Sha256,
}

/// A verifier bound to a declared `algorithm:hex` string.
#[derive(Debug, Clone)]
pub struct ContentDigest {
    /// The declared algorithm.
    pub algorithm: DigestAlgorithm,
    /// The declared hex, exactly as given.
    pub expected_hex: String,
    /// Every byte received so far.
    pub received: Vec<u8>,
}

impl ContentDigest {
    /// Bind a verifier to a digest string.
    ///
    /// Fails on a string without exactly one `:`, and on any algorithm
    /// other than `sha256`.
    pub fn try_new(digest: &str) -> (r: Result<ContentDigest, Error>)
        ensures
            match spec_digest_parts(digest@) {
                None => r == Err::<ContentDigest, Error>(Error::BadDigestFormat),
                Some((algo, hex)) => {
                    if algo == "sha256"@ {
                        r matches Ok(cd) && cd.algorithm == DigestAlgorithm::Sha256
                            && cd.expected_hex@ == hex && cd.received@ == Seq::<u8>::empty()
                    } else {
                        r matches Err(e) && e matches Error::UnsupportedDigestAlgorithm(s)
                            && s@ == algo
                    }
                },
            },
    {
        let n = digest.unicode_len();
        let first = crate::strutil::find_char(digest, ':');
        let last = crate::strutil::rfind_char(digest, ':');
        match (first, last) {
            (Some(i), Some(j)) => {
                if i != j {
                    return Err(Error::BadDigestFormat);
                }
                let algo = digest.substring_char(0, i);
                let hex = substr_to_string(digest, i + 1, n);
                proof {
                    crate::strutil::lemma_find_is_first(digest@, ':');
                    assert(algo@ =~= digest@.take(i as int));
                    assert(hex@ =~= digest@.skip(i + 1));
                }
                if str_eq(algo, "sha256") {
                    Ok(
                        ContentDigest {
                            algorithm: DigestAlgorithm::Sha256,
                            expected_hex: hex,
                            received: Vec::new(),
                        },
                    )
                } else {
                    Err(Error::UnsupportedDigestAlgorithm(String::from_str(algo)))
                }
            },
            _ => Err(Error::BadDigestFormat),
        }
    }

    /// Feed a chunk of content.
    pub fn update(&mut self, data: &[u8])
        ensures
            final(self).received@ == old(self).received@ + data@,
            final(self).expected_hex == old(self).expected_hex,
            final(self).algorithm == old(self).algorithm,
    {
        let n = data.len();
        let mut i: usize = 0;
        while i < n
            invariant
                n == data@.len(),
                0 <= i <= n,
                self.received@ == old(self).received@ + data@.take(i as int),
                self.expected_hex == old(self).expected_hex,
                self.algorithm == old(self).algorithm,
            decreases n - i,
        {
            self.received.push(data[i]);
            proof {
                assert(old(self).received@ + data@.take(i + 1) =~= (old(self).received@
                    + data@.take(i as int)).push(data@[i as int]));
            }
            i += 1;
        }
        proof {
            assert(data@.take(n as int) =~= data@);
        }
    }

    /// Hash everything received and compare to the declared hex,
    /// case-insensitively. Consumes the verifier: verification runs
    /// exactly once.
    pub fn verify(self) -> (r: Result<(), Error>)
        ensures
            spec_hex_fold(self.expected_hex@) == spec_hex_encode(sha256_of(self.received@))
                ==> r is Ok,
            spec_hex_fold(self.expected_hex@) != spec_hex_encode(sha256_of(self.received@))
                ==> (r matches Err(e) && e matches Error::DigestMismatch { expected, computed }
                && expected@ == spec_hex_fold(self.expected_hex@) && computed@
                == spec_hex_encode(sha256_of(self.received@))),
    {
        let computed = sha256_digest(self.received.as_slice());
        let computed_hex = hex_encode(computed.as_slice());
        let expected = hex_fold(self.expected_hex.as_str());
        if str_eq(expected.as_str(), computed_hex.as_str()) {
            Ok(())
        } else {
            Err(Error::DigestMismatch { expected, computed: computed_hex })
        }
    }
}

} // verus!
