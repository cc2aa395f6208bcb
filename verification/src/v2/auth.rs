//! Bearer-token authentication: `WWW-Authenticate` challenge parsing,
//! token-endpoint URL building, token validation and masking.
//!
//! A challenge is a sequence of `key="value"` pairs, the key a run of
//! lower-case letters. The parser scans for such pairs anywhere in the
//! input, so pair order, the whitespace around commas, and unknown
//! keys are all tolerated.

use vstd::prelude::*;

use crate::errors::Error;
use crate::strutil::is_lower_char;
use crate::strutil::spec_find;
use crate::strutil::spec_is_lower;
use crate::strutil::spec_starts_with;
use crate::strutil::spec_strings_view;
use crate::strutil::starts_with_str;
use crate::strutil::str_eq;
use crate::strutil::substr_to_string;
use crate::v2::Client;

verus! {

/// Length of the maximal prefix of lower-case letters.
pub open spec fn spec_run_len(s: Seq<char>) -> nat
    decreases s.len(),
{
    if s.len() == 0 || !spec_is_lower(s[0]) {
        0
    } else {
        (1 + spec_run_len(s.skip(1))) as nat
    }
}

pub proof fn lemma_run_len_bounds(s: Seq<char>)
    ensures
        spec_run_len(s) <= s.len(),
        forall|j: int| 0 <= j < spec_run_len(s) ==> spec_is_lower(s[j]),
        spec_run_len(s) < s.len() ==> !spec_is_lower(s[spec_run_len(s) as int]),
    decreases s.len(),
{
    if s.len() > 0 && spec_is_lower(s[0]) {
        lemma_run_len_bounds(s.skip(1));
        let k = spec_run_len(s) as int;
        assert forall|j: int| 0 <= j < k implies spec_is_lower(s[j]) by {
            if j > 0 {
                assert(s.skip(1)[j - 1] == s[j]);
            }
        }
        if k < s.len() {
            assert(s.skip(1)[k - 1] == s[k]);
        }
    }
}

pub proof fn lemma_run_len_at(s: Seq<char>, k: int)
    requires
        0 <= k <= s.len(),
        forall|j: int| 0 <= j < k ==> spec_is_lower(s[j]),
        k < s.len() ==> !spec_is_lower(s[k]),
    ensures
        spec_run_len(s) == k,
    decreases s.len(),
{
    if k > 0 {
        assert(spec_is_lower(s[0]));
        assert forall|j: int| 0 <= j < k - 1 implies spec_is_lower(s.skip(1)[j]) by {
            assert(s.skip(1)[j] == s[j + 1]);
        }
        if k - 1 < s.skip(1).len() {
            assert(s.skip(1)[k - 1] == s[k]);
        }
        lemma_run_len_at(s.skip(1), k - 1);
    }
}

/// All `key="value"` pairs found in the input, scanning left to
/// right: a maximal run of lower-case letters immediately followed by
/// `="` opens a pair, which the next `"` closes; everything else is
/// skipped.
pub open spec fn spec_challenge_pairs(s: Seq<char>) -> Seq<(Seq<char>, Seq<char>)>
    decreases s.len(),
{
    if s.len() == 0 {
        Seq::empty()
    } else if !spec_is_lower(s[0]) {
        spec_challenge_pairs(s.skip(1))
    } else {
        let k = spec_run_len(s) as int;
        if k + 1 < s.len() && s[k] == '=' && s[k + 1] == '"' {
            match spec_find(s.skip(k + 2), '"') {
                Some(m) => {
                    proof {
                        lemma_run_len_bounds(s);
                        crate::strutil::lemma_find_is_first(s.skip(k + 2), '"');
                    }
                    seq![(s.take(k), s.skip(k + 2).take(m))] + spec_challenge_pairs(
                        s.skip(k + 3 + m),
                    )
                },
                None => {
                    proof {
                        lemma_run_len_bounds(s);
                    }
                    spec_challenge_pairs(s.skip(k))
                },
            }
        } else {
            proof {
                lemma_run_len_bounds(s);
            }
            spec_challenge_pairs(s.skip(k))
        }
    }
}

/// The value of the last pair carrying `key`, if any — a repeated key
/// overwrites the earlier value, as the scan of the parsed pairs does.
pub open spec fn spec_pairs_lookup(pairs: Seq<(Seq<char>, Seq<char>)>, key: Seq<char>) -> Option<
    Seq<char>,
>
    decreases pairs.len(),
{
    if pairs.len() == 0 {
        None
    } else if pairs.last().0 == key {
        Some(pairs.last().1)
    } else {
        spec_pairs_lookup(pairs.drop_last(), key)
    }
}

/// The views of a vector of owned pairs.
pub open spec fn spec_pairs_view(s: Seq<(String, String)>) -> Seq<(Seq<char>, Seq<char>)> {
    s.map_values(|q: (String, String)| (q.0@, q.1@))
}

proof fn lemma_pairs_view_push(s: Seq<(String, String)>, x: (String, String))
    ensures
        spec_pairs_view(s.push(x)) =~= spec_pairs_view(s).push((x.0@, x.1@)),
{
}

proof fn lemma_lookup_push(
    pairs: Seq<(Seq<char>, Seq<char>)>,
    y: (Seq<char>, Seq<char>),
    key: Seq<char>,
)
    ensures
        spec_pairs_lookup(pairs.push(y), key) == (if y.0 == key {
            Some(y.1)
        } else {
            spec_pairs_lookup(pairs, key)
        }),
{
    let q = pairs.push(y);
    assert(q.last() == y);
    assert(q.drop_last() =~= pairs);
}

/// Collect all `key="value"` pairs of a challenge.
pub fn parse_challenge_pairs(input: &str) -> (r: Vec<(String, String)>)
    ensures
        spec_pairs_view(r@) == spec_challenge_pairs(input@),
{
    let n = input.unicode_len();
    let mut out: Vec<(String, String)> = Vec::new();
    let mut p: usize = 0;
    proof {
        assert(input@.skip(0) =~= input@);
        assert(spec_pairs_view(out@) + spec_challenge_pairs(input@) =~= spec_challenge_pairs(
            input@,
        ));
    }
    while p < n
        invariant
            n == input@.len(),
            0 <= p <= n,
            spec_challenge_pairs(input@) == spec_pairs_view(out@) + spec_challenge_pairs(
                input@.skip(p as int),
            ),
        decreases n - p,
    {
        let ghost s = input@.skip(p as int);
        let c = input.get_char(p);
        proof {
            assert(s[0] == input@[p as int]);
        }
        if !is_lower_char(c) {
            proof {
                assert(s.skip(1) =~= input@.skip(p + 1));
            }
            p += 1;
        } else {
            let mut e = p + 1;
            while e < n && is_lower_char(input.get_char(e))
                invariant
                    n == input@.len(),
                    p < e <= n,
                    forall|j: int| p <= j < e ==> spec_is_lower(input@[j]),
                decreases n - e,
            {
                e += 1;
            }
            let ghost k = (e - p) as int;
            proof {
                assert forall|j: int| 0 <= j < k implies spec_is_lower(s[j]) by {
                    assert(s[j] == input@[p + j]);
                }
                if k < s.len() {
                    assert(s[k] == input@[e as int]);
                }
                lemma_run_len_at(s, k);
            }
            if n - e > 1 && input.get_char(e) == '=' && input.get_char(e + 1) == '"' {
                proof {
                    assert(s[k] == input@[e as int]);
                    assert(s[k + 1] == input@[e + 1]);
                }
                let tail = input.substring_char(e + 2, n);
                proof {
                    assert(tail@ =~= s.skip(k + 2));
                }
                match crate::strutil::find_char(tail, '"') {
                    Some(m) => {
                        let key = substr_to_string(input, p, e);
                        let val = substr_to_string(input, e + 2, e + 2 + m);
                        proof {
                            assert(key@ =~= s.take(k));
                            assert(val@ =~= s.skip(k + 2).take(m as int));
                        }
                        let ghost prev = out@;
                        let ghost pair = (key@, val@);
                        out.push((key, val));
                        proof {
                            assert(spec_challenge_pairs(s) == seq![
                                (s.take(k), s.skip(k + 2).take(m as int)),
                            ] + spec_challenge_pairs(s.skip(k + 3 + m)));
                            assert(s.skip(k + 3 + m) =~= input@.skip(p + k + 3 + m));
                            lemma_pairs_view_push(prev, (key, val));
                            assert(spec_pairs_view(out@) =~= spec_pairs_view(prev) + seq![
                                pair,
                            ]);
                            assert(spec_pairs_view(prev) + (seq![pair] + spec_challenge_pairs(
                                s.skip(k + 3 + m),
                            )) =~= spec_pairs_view(out@) + spec_challenge_pairs(
                                s.skip(k + 3 + m),
                            ));
                        }
                        p = e + 3 + m;
                    },
                    None => {
                        proof {
                            assert(spec_challenge_pairs(s) == spec_challenge_pairs(s.skip(k)));
                            assert(s.skip(k) =~= input@.skip(e as int));
                        }
                        p = e;
                    },
                }
            } else {
                proof {
                    if k + 1 < s.len() {
                        assert(s[k] == input@[e as int]);
                        if e + 1 < n {
                            assert(s[k + 1] == input@[e + 1]);
                        }
                    }
                    assert(spec_challenge_pairs(s) == spec_challenge_pairs(s.skip(k)));
                    assert(s.skip(k) =~= input@.skip(e as int));
                }
                p = e;
            }
        }
    }
    proof {
        assert(input@.skip(n as int) =~= Seq::<char>::empty());
        assert(spec_pairs_view(out@) + spec_challenge_pairs(Seq::<char>::empty())
            =~= spec_pairs_view(out@));
    }
    out
}

/// A rendered pair: `key="value"`.
pub open spec fn spec_render_pair(key: Seq<char>, value: Seq<char>) -> Seq<char> {
    key + "=\""@ + value + "\""@
}

/// A separator tolerated between pairs: any run of characters that
/// are neither lower-case letters nor quotes — arbitrary whitespace
/// and commas among them.
pub open spec fn spec_sep_ok(sep: Seq<char>) -> bool {
    forall|j: int| 0 <= j < sep.len() ==> !spec_is_lower(sep[j]) && sep[j] != '"'
}

/// A well-formed pair: nonempty all-lower-case key, quote-free value.
pub open spec fn spec_pair_ok(p: (Seq<char>, Seq<char>)) -> bool {
    &&& p.0.len() >= 1
    &&& forall|j: int| 0 <= j < p.0.len() ==> spec_is_lower(p.0[j])
    &&& forall|j: int| 0 <= j < p.1.len() ==> p.1[j] != '"'
}

/// A challenge rendered from pairs, with an arbitrary separator
/// before each pair and one after the last: `seps[i]` precedes
/// `pairs[i]`, and the final element of `seps` closes the string.
pub open spec fn spec_render_challenge(
    pairs: Seq<(Seq<char>, Seq<char>)>,
    seps: Seq<Seq<char>>,
) -> Seq<char>
    decreases pairs.len(),
{
    if pairs.len() == 0 {
        if seps.len() == 0 {
            Seq::empty()
        } else {
            seps[0]
        }
    } else {
        seps[0] + spec_render_pair(pairs[0].0, pairs[0].1) + spec_render_challenge(
            pairs.skip(1),
            seps.skip(1),
        )
    }
}

/// Leading separator text is skipped without affecting the parsed
/// pairs.
proof fn lemma_pairs_skip_sep(sep: Seq<char>, rest: Seq<char>)
    requires
        spec_sep_ok(sep),
    ensures
        spec_challenge_pairs(sep + rest) == spec_challenge_pairs(rest),
    decreases sep.len(),
{
    if sep.len() == 0 {
        assert(sep + rest =~= rest);
    } else {
        let s = sep + rest;
        assert(s[0] == sep[0]);
        assert(s.skip(1) =~= sep.skip(1) + rest);
        assert forall|j: int| 0 <= j < sep.skip(1).len() implies !spec_is_lower(sep.skip(1)[j])
            && sep.skip(1)[j] != '"' by {
            assert(sep.skip(1)[j] == sep[j + 1]);
        }
        lemma_pairs_skip_sep(sep.skip(1), rest);
    }
}

/// A rendered pair at the front of the input parses to exactly that
/// pair, whatever follows it.
proof fn lemma_pairs_at_pair(key: Seq<char>, value: Seq<char>, rest: Seq<char>)
    requires
        spec_pair_ok((key, value)),
    ensures
        spec_challenge_pairs(spec_render_pair(key, value) + rest) == seq![(key, value)]
            + spec_challenge_pairs(rest),
{
    reveal_strlit("=\"");
    reveal_strlit("\"");
    let kl = key.len() as int;
    let vl = value.len() as int;
    assert forall|j: int| 0 <= j < kl implies spec_is_lower(key[j]) by {
        assert((key, value).0[j] == key[j]);
    }
    assert forall|j: int| 0 <= j < vl implies value[j] != '"' by {
        assert((key, value).1[j] == value[j]);
    }
    let s = spec_render_pair(key, value) + rest;
    assert(s.len() == kl + 2 + vl + 1 + rest.len());
    assert forall|j: int| 0 <= j < kl implies s[j] == key[j] by {}
    assert(s[kl] == '=');
    assert(s[kl + 1] == '"');
    assert(spec_is_lower(s[0]));
    assert(!spec_is_lower('='));
    lemma_run_len_at(s, kl);
    let tail = s.skip(kl + 2);
    assert(tail =~= value + "\""@ + rest);
    assert forall|j: int| 0 <= j < vl implies tail[j] != '"' by {
        assert(tail[j] == value[j]);
    }
    assert(tail[vl] == '"');
    crate::strutil::lemma_find_at(tail, '"', vl);
    assert(s.take(kl) =~= key);
    assert(tail.take(vl) =~= value);
    assert(s.skip(kl + 3 + vl) =~= rest);
    assert(spec_challenge_pairs(s) == seq![(key, value)] + spec_challenge_pairs(rest));
}

/// Parsing is tolerant in exactly the way the wire format needs:
/// however a set of well-formed pairs is laid out — in any order,
/// with arbitrary whitespace, commas or other separator text around
/// them — the parse returns precisely those pairs, in that layout's
/// order.
pub proof fn lemma_challenge_render_exact(
    pairs: Seq<(Seq<char>, Seq<char>)>,
    seps: Seq<Seq<char>>,
)
    requires
        seps.len() == pairs.len() + 1,
        forall|i: int| 0 <= i < seps.len() ==> spec_sep_ok(#[trigger] seps[i]),
        forall|i: int| 0 <= i < pairs.len() ==> spec_pair_ok(#[trigger] pairs[i]),
    ensures
        spec_challenge_pairs(spec_render_challenge(pairs, seps)) == pairs,
    decreases pairs.len(),
{
    if pairs.len() == 0 {
        lemma_pairs_skip_sep(seps[0], Seq::empty());
        assert(seps[0] + Seq::<char>::empty() =~= seps[0]);
    } else {
        let body = spec_render_pair(pairs[0].0, pairs[0].1) + spec_render_challenge(
            pairs.skip(1),
            seps.skip(1),
        );
        assert(spec_render_challenge(pairs, seps) =~= seps[0] + body);
        lemma_pairs_skip_sep(seps[0], body);
        lemma_pairs_at_pair(pairs[0].0, pairs[0].1, spec_render_challenge(
            pairs.skip(1),
            seps.skip(1),
        ));
        assert forall|i: int| 0 <= i < pairs.skip(1).len() implies spec_pair_ok(
            #[trigger] pairs.skip(1)[i],
        ) by {
            assert(pairs.skip(1)[i] == pairs[i + 1]);
        }
        assert forall|i: int| 0 <= i < seps.skip(1).len() implies spec_sep_ok(
            #[trigger] seps.skip(1)[i],
        ) by {
            assert(seps.skip(1)[i] == seps[i + 1]);
        }
        lemma_challenge_render_exact(pairs.skip(1), seps.skip(1));
        assert((pairs[0].0, pairs[0].1) == pairs[0]);
        assert(seq![pairs[0]] + pairs.skip(1) =~= pairs);
    }
}

/// With distinct keys, what a lookup returns does not depend on the
/// order of the pairs: it finds exactly the values the pair list
/// holds.
pub proof fn lemma_lookup_order_independent(
    pairs: Seq<(Seq<char>, Seq<char>)>,
    key: Seq<char>,
    value: Seq<char>,
)
    requires
        forall|i: int, j: int| 0 <= i < j < pairs.len() ==> pairs[i].0 != pairs[j].0,
    ensures
        spec_pairs_lookup(pairs, key) == Some(value) <==> pairs.contains((key, value)),
    decreases pairs.len(),
{
    if pairs.len() > 0 {
        let prefix = pairs.drop_last();
        assert forall|i: int, j: int| 0 <= i < j < prefix.len() implies prefix[i].0
            != prefix[j].0 by {
            assert(prefix[i] == pairs[i]);
            assert(prefix[j] == pairs[j]);
        }
        lemma_lookup_order_independent(prefix, key, value);
        if pairs.last().0 == key {
            if spec_pairs_lookup(pairs, key) == Some(value) {
                assert(pairs.last() == (key, value));
                assert(pairs.contains((key, value)));
            }
            if pairs.contains((key, value)) {
                let i = choose|i: int|
                    0 <= i < pairs.len() && pairs[i] == (key, value);
                if i < pairs.len() - 1 {
                    assert(pairs[i].0 == pairs[pairs.len() - 1].0);
                    assert(false);
                }
                assert(pairs.last() == (key, value));
            }
        } else {
            assert(pairs.last() != (key, value));
            if prefix.contains((key, value)) {
                let i = choose|i: int|
                    0 <= i < prefix.len() && prefix[i] == (key, value);
                assert(pairs[i] == (key, value));
                assert(pairs.contains((key, value)));
            }
            if pairs.contains((key, value)) {
                let i = choose|i: int|
                    0 <= i < pairs.len() && pairs[i] == (key, value);
                assert(i < pairs.len() - 1);
                assert(prefix[i] == (key, value));
                assert(prefix.contains((key, value)));
            }
        }
    }
}

/// Two challenges holding the same pairs — in any order — look up to
/// the same values, for every key: with distinct keys (which is what
/// "the same set of pairs" presumes; under a repeated key the last
/// occurrence wins on either side), pair order does not matter.
pub proof fn lemma_lookup_permutation(
    pa: Seq<(Seq<char>, Seq<char>)>,
    pb: Seq<(Seq<char>, Seq<char>)>,
    key: Seq<char>,
)
    requires
        pa.to_multiset() == pb.to_multiset(),
        forall|i: int, j: int| 0 <= i < j < pa.len() ==> pa[i].0 != pa[j].0,
        forall|i: int, j: int| 0 <= i < j < pb.len() ==> pb[i].0 != pb[j].0,
    ensures
        spec_pairs_lookup(pa, key) == spec_pairs_lookup(pb, key),
{
    broadcast use vstd::seq_lib::to_multiset_contains;

    match spec_pairs_lookup(pa, key) {
        Some(v) => {
            lemma_lookup_order_independent(pa, key, v);
            assert(pa.contains((key, v)));
            assert(pa.to_multiset().count((key, v)) > 0);
            assert(pb.contains((key, v)));
            lemma_lookup_order_independent(pb, key, v);
        },
        None => {
            match spec_pairs_lookup(pb, key) {
                Some(w) => {
                    lemma_lookup_order_independent(pb, key, w);
                    assert(pb.contains((key, w)));
                    assert(pb.to_multiset().count((key, w)) > 0);
                    assert(pa.contains((key, w)));
                    lemma_lookup_order_independent(pa, key, w);
                },
                None => {},
            }
        },
    }
}

/// Parse a `WWW-Authenticate` header value of scheme `Bearer`, already
/// stripped of the leading `Bearer ` literal.
///
/// Only the `realm` and `service` keys are read; a repeated key keeps
/// its last value; unknown keys are ignored. The realm — the token
/// service URL — is required.
pub fn parse_hdr_bearer(input: &str) -> (r: Result<(String, Option<String>), Error>)
    ensures
        match r {
            Ok((realm, service)) => {
                &&& spec_pairs_lookup(spec_challenge_pairs(input@), "realm"@) == Some(realm@)
                &&& match service {
                    Some(sv) => spec_pairs_lookup(spec_challenge_pairs(input@), "service"@)
                        == Some(sv@),
                    None => spec_pairs_lookup(spec_challenge_pairs(input@), "service"@)
                        is None,
                }
            },
            Err(e) => spec_pairs_lookup(spec_challenge_pairs(input@), "realm"@) is None && e
                matches Error::Protocol(_),
        },
{
    proof {
        reveal_strlit("realm");
        reveal_strlit("service");
    }
    let pairs = parse_challenge_pairs(input);
    let ghost all = spec_challenge_pairs(input@);
    let mut realm: Option<String> = None;
    let mut service: Option<String> = None;
    let n = pairs.len();
    let mut i: usize = 0;
    while i < n
        invariant
            n == pairs@.len(),
            0 <= i <= n,
            all == spec_pairs_view(pairs@),
            match realm {
                Some(v) => spec_pairs_lookup(spec_pairs_view(pairs@.take(i as int)), "realm"@)
                    == Some(v@),
                None => spec_pairs_lookup(spec_pairs_view(pairs@.take(i as int)), "realm"@)
                    is None,
            },
            match service {
                Some(v) => spec_pairs_lookup(
                    spec_pairs_view(pairs@.take(i as int)),
                    "service"@,
                ) == Some(v@),
                None => spec_pairs_lookup(spec_pairs_view(pairs@.take(i as int)), "service"@)
                    is None,
            },
        decreases n - i,
    {
        let ghost before = spec_pairs_view(pairs@.take(i as int));
        let ghost entry = (pairs@[i as int].0@, pairs@[i as int].1@);
        proof {
            reveal_strlit("realm");
            reveal_strlit("service");
            assert("realm"@.len() != "service"@.len());
            assert(pairs@.take(i + 1) =~= pairs@.take(i as int).push(pairs@[i as int]));
            lemma_pairs_view_push(pairs@.take(i as int), pairs@[i as int]);
            assert(spec_pairs_view(pairs@.take(i + 1)) == before.push(entry));
            lemma_lookup_push(before, entry, "realm"@);
            lemma_lookup_push(before, entry, "service"@);
        }
        if str_eq(pairs[i].0.as_str(), "realm") {
            realm = Some(pairs[i].1.clone());
        } else if str_eq(pairs[i].0.as_str(), "service") {
            service = Some(pairs[i].1.clone());
        }
        i += 1;
    }
    proof {
        assert(pairs@.take(n as int) =~= pairs@);
    }
    match realm {
        Some(r) => Ok((r, service)),
        None => Err(Error::Protocol(String::from_str("missing realm in bearer challenge"))),
    }
}

/// The query string appending each scope: the first separator is `?`
/// unless the URL already carries a query.
pub open spec fn spec_scopes_query(scopes: Seq<Seq<char>>, have_query: bool) -> Seq<char>
    decreases scopes.len(),
{
    if scopes.len() == 0 {
        Seq::empty()
    } else {
        (if have_query {
            "&scope="@
        } else {
            "?scope="@
        }) + scopes[0] + spec_scopes_query(scopes.skip(1), true)
    }
}

/// The token-service URL for a challenge realm, an optional service
/// identity, and the caller's scopes.
pub fn token_url(realm: &str, service: Option<&String>, scopes: &Vec<String>) -> (r: String)
    ensures
        r@ == realm@ + (match service {
            Some(sv) => "?service="@ + sv@,
            None => Seq::<char>::empty(),
        }) + spec_scopes_query(spec_strings_view(scopes@), service is Some),
{
    let mut r = String::from_str(realm);
    let mut have_query = match service {
        Some(sv) => {
            r.append("?service=");
            r.append(sv.as_str());
            true
        },
        None => false,
    };
    let ghost head = r@;
    let ghost q0 = have_query;
    let n = scopes.len();
    let mut i: usize = 0;
    proof {
        assert(spec_strings_view(scopes@).skip(0) =~= spec_strings_view(scopes@));
    }
    while i < n
        invariant
            n == scopes@.len(),
            0 <= i <= n,
            have_query == (q0 || i > 0),
            head + spec_scopes_query(spec_strings_view(scopes@), q0) == r@ + spec_scopes_query(
                spec_strings_view(scopes@).skip(i as int),
                have_query,
            ),
        decreases n - i,
    {
        let ghost rest = spec_strings_view(scopes@).skip(i as int);
        proof {
            assert(spec_strings_view(scopes@)[i as int] == scopes@[i as int]@);
            assert(rest[0] == scopes@[i as int]@);
            assert(rest.skip(1) =~= spec_strings_view(scopes@).skip(i + 1));
        }
        if have_query {
            r.append("&scope=");
        } else {
            r.append("?scope=");
        }
        r.append(scopes[i].as_str());
        have_query = true;
        i += 1;
    }
    proof {
        assert(spec_strings_view(scopes@).skip(n as int) =~= Seq::<Seq<char>>::empty());
    }
    r
}

/// The full token-provider derivation from a `WWW-Authenticate`
/// header: require the `Bearer` scheme, parse the challenge, and
/// build the token URL from its realm and service and the caller's
/// scopes.
pub fn token_endpoint_from_challenge(header: &str, scopes: &Vec<String>) -> (r: Result<
    String,
    Error,
>)
    ensures
        !spec_starts_with(header@, "Bearer "@) ==> (r matches Err(e) && e
            matches Error::UnsupportedChallengeScheme(h) && h@ == header@),
        spec_starts_with(header@, "Bearer "@) ==> {
            let pairs = spec_challenge_pairs(header@.skip(7));
            match spec_pairs_lookup(pairs, "realm"@) {
                None => r matches Err(e) && e matches Error::Protocol(_),
                Some(realm) => r matches Ok(url) && url@ == realm + (match spec_pairs_lookup(
                    pairs,
                    "service"@,
                ) {
                    Some(sv) => "?service="@ + sv,
                    None => Seq::<char>::empty(),
                }) + spec_scopes_query(
                    spec_strings_view(scopes@),
                    spec_pairs_lookup(pairs, "service"@) is Some,
                ),
            }
        },
{
    if !starts_with_str(header, "Bearer ") {
        return Err(Error::UnsupportedChallengeScheme(String::from_str(header)));
    }
    proof {
        reveal_strlit("Bearer ");
    }
    let n = header.unicode_len();
    let rest = header.substring_char(7, n);
    proof {
        assert(rest@ =~= header@.skip(7));
    }
    match parse_hdr_bearer(rest) {
        Ok((realm, service)) => Ok(token_url(realm.as_str(), service.as_ref(), scopes)),
        Err(e) => Err(e),
    }
}

/// Whether the anonymous `GET /v2/` probe that opens a login requires
/// following a challenge: a 200 means access is already granted and
/// the login returns an empty token; anything else sends the client
/// to the token service named by the challenge.
pub fn login_needs_challenge(status: u16) -> (r: bool)
    ensures
        r == (status != 200),
{
    status != 200
}

/// An issued bearer token with its optional metadata.
#[derive(Debug, Clone)]
pub struct TokenAuth {
    /// The opaque token string.
    pub token: String,
    /// Lifetime in seconds, when the service stated one.
    pub expires_in: Option<u32>,
    /// Issue timestamp, verbatim.
    pub issued_at: Option<String>,
    /// Refresh token, when the service granted one.
    pub refresh_token: Option<String>,
}

impl TokenAuth {
    /// The token string to present as a bearer credential.
    pub fn token(&self) -> (r: &str)
        ensures
            r@ == self.token@,
    {
        self.token.as_str()
    }
}

/// Whether a decoded token response grants authenticated access: the
/// HTTP status must be 200, and the token must be neither empty nor
/// the sentinel `unauthenticated` — both of which mean only anonymous
/// access was granted.
pub fn validate_login(status: u16, token: &TokenAuth) -> (r: Result<(), Error>)
    ensures
        status != 200 ==> r == Err::<(), Error>(Error::UnexpectedHttpStatus(status)),
        status == 200 && token.token@ == "unauthenticated"@ ==> (r matches Err(e) && e
            matches Error::Authentication(_)),
        status == 200 && token.token@ == Seq::<char>::empty() ==> (r matches Err(e) && e
            matches Error::Authentication(_)),
        status == 200 && token.token@ != "unauthenticated"@ && token.token@
            != Seq::<char>::empty() ==> r is Ok,
{
    if status != 200 {
        return Err(Error::UnexpectedHttpStatus(status));
    }
    if str_eq(token.token.as_str(), "unauthenticated") {
        return Err(
            Error::Authentication(String::from_str("received token with value 'unauthenticated'")),
        );
    }
    if token.token.as_str().unicode_len() == 0 {
        proof {
            assert(token.token@ =~= Seq::<char>::empty());
        }
        return Err(Error::Authentication(String::from_str("received an empty token")));
    }
    Ok(())
}

/// The masked form of a token: first and last characters kept, the
/// interior replaced by `*`. A single character is itself replaced.
pub open spec fn spec_mask(s: Seq<char>) -> Seq<char> {
    if s.len() == 1 {
        seq!['*']
    } else {
        s.take(1) + Seq::new((s.len() - 2) as nat, |i: int| '*') + s.skip(s.len() - 1)
    }
}

/// Mask a token for logging.
pub fn mask_token(token: &str) -> (r: String)
    requires
        token@.len() >= 1,
    ensures
        r@ == spec_mask(token@),
{
    let n = token.unicode_len();
    if n == 1 {
        proof {
            reveal_strlit("*");
            assert("*"@ =~= spec_mask(token@));
        }
        return String::from_str("*");
    }
    let mut r = String::new();
    r.push(token.get_char(0));
    let stars = crate::strutil::repeat_char('*', n - 2);
    r.append(stars.as_str());
    r.push(token.get_char(n - 1));
    proof {
        assert(r@ =~= spec_mask(token@));
    }
    r
}

/// The mask keeps exactly the first and last original characters;
/// every character in between is a `*`, and the length is unchanged.
pub proof fn lemma_mask_token(s: Seq<char>)
    requires
        s.len() >= 2,
    ensures
        spec_mask(s).len() == s.len(),
        spec_mask(s)[0] == s[0],
        spec_mask(s)[s.len() - 1] == s[s.len() - 1],
        forall|j: int| 0 < j < s.len() - 1 ==> spec_mask(s)[j] == '*',
{
}

/// Outcome of the `GET /v2/` authentication probe: authenticated on
/// 200, not authenticated on 401, an error on anything else.
pub fn interpret_auth_probe(status: u16) -> (r: Result<bool, Error>)
    ensures
        status == 200 ==> r == Ok::<bool, Error>(true),
        status == 401 ==> r == Ok::<bool, Error>(false),
        status != 200 && status != 401 ==> r == Err::<bool, Error>(
            Error::UnexpectedHttpStatus(status),
        ),
{
    if status == 200 {
        Ok(true)
    } else if status == 401 {
        Ok(false)
    } else {
        Err(Error::UnexpectedHttpStatus(status))
    }
}

impl Client {
    /// Install a token for further registry requests; `None` leaves
    /// the current token in place.
    pub fn set_token(&mut self, token: Option<&str>)
        ensures
            match token {
                Some(t) => final(self).token matches Some(ts) && ts@ == t@,
                None => final(self).token == old(self).token,
            },
            final(self).base_url == old(self).base_url,
            final(self).credentials == old(self).credentials,
            final(self).user_agent == old(self).user_agent,
            final(self).accepted_types == old(self).accepted_types,
    {
        if let Some(t) = token {
            self.token = Some(String::from_str(t));
        }
    }
}

} // verus!
