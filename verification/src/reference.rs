//! Parser for `docker://` image references.
//!
//! An image coordinate names a registry host, a repository path and a
//! version (a tag, or a digest of the form `algorithm:hex`). The
//! parser accepts an optional `docker://` scheme prefix, locates the
//! version separator (the last `@`, or else the last `:` that follows
//! the last `/`, so host ports are not misread), and infers Docker Hub
//! defaults for bare names.

use vstd::prelude::*;

use crate::errors::Error;
use crate::strutil::contains_char;
use crate::strutil::find_char;
use crate::strutil::rfind_char;
use crate::strutil::spec_find;
use crate::strutil::spec_rfind;
use crate::strutil::spec_starts_with;
use crate::strutil::starts_with_str;
use crate::strutil::substr_to_string;

verus! {

/// Image version, either a tag or a digest.
#[derive(Debug, Clone)]
pub enum Version {
    Tag(String),
    Digest(String, String),
}

/// Mathematical value of a [`Version`].
pub enum VersionView {
    Tag(Seq<char>),
    Digest(Seq<char>, Seq<char>),
}

impl View for Version {
    type V = VersionView;

    open spec fn view(&self) -> VersionView {
        match self {
            Version::Tag(t) => VersionView::Tag(t@),
            Version::Digest(a, h) => VersionView::Digest(a@, h@),
        }
    }
}

/// The version as shown to callers: the bare tag, or `algorithm:hex`.
pub open spec fn spec_version_string(v: VersionView) -> Seq<char> {
    match v {
        VersionView::Tag(t) => t,
        VersionView::Digest(a, h) => a + ":"@ + h,
    }
}

/// The version as written in a reference string: `:tag` or
/// `@algorithm:hex`.
pub open spec fn spec_version_prefixed(v: VersionView) -> Seq<char> {
    match v {
        VersionView::Tag(t) => ":"@ + t,
        VersionView::Digest(a, h) => "@"@ + a + ":"@ + h,
    }
}

impl Version {
    /// The version as shown to callers.
    pub fn to_version_string(&self) -> (r: String)
        ensures
            r@ == spec_version_string(self@),
    {
        match self {
            Version::Tag(t) => t.clone(),
            Version::Digest(a, h) => {
                let mut r = a.clone();
                r.push(':');
                r.append(h.as_str());
                proof {
                    reveal_strlit(":");
                    assert(a@.push(':') =~= a@ + ":"@);
                }
                r
            },
        }
    }
}

impl Default for Version {
    /// The default version is the tag `latest`.
    fn default() -> (r: Self)
        ensures
            r@ == VersionView::Tag("latest"@),
    {
        Version::Tag(String::from_str("latest"))
    }
}

/// A registry image reference.
#[derive(Debug, Clone)]
pub struct Reference {
    /// Whether the input carried the `docker://` scheme prefix.
    pub has_schema: bool,
    /// The string this reference was parsed from, empty if built
    /// directly.
    pub raw_input: String,
    /// Registry host, possibly with a port.
    pub registry: String,
    /// Repository path within the registry.
    pub repository: String,
    /// Tag or digest, defaulting to the tag `latest`.
    pub version: Version,
}

/// Mathematical value of a [`Reference`].
pub struct ReferenceView {
    pub has_schema: bool,
    pub raw_input: Seq<char>,
    pub registry: Seq<char>,
    pub repository: Seq<char>,
    pub version: VersionView,
}

impl View for Reference {
    type V = ReferenceView;

    open spec fn view(&self) -> ReferenceView {
        ReferenceView {
            has_schema: self.has_schema,
            raw_input: self.raw_input@,
            registry: self.registry@,
            repository: self.repository@,
            version: self.version@,
        }
    }
}

/// Registry assumed when the reference names none.
pub open spec fn spec_default_registry() -> Seq<char> {
    "registry-1.docker.io"@
}

/// Namespace assumed for bare image names on Docker Hub.
pub open spec fn spec_library_prefix() -> Seq<char> {
    "library/"@
}

/// A version written after its separator: `:tag`, or `@algorithm:hex`
/// split at the first `:` after the `@`.
pub open spec fn spec_version_of(v: Seq<char>) -> Option<VersionView> {
    if v.len() == 0 {
        None
    } else if v[0] == ':' {
        Some(VersionView::Tag(v.skip(1)))
    } else if v[0] == '@' {
        match spec_find(v.skip(1), ':') {
            Some(i) => Some(
                VersionView::Digest(v.skip(1).take(i), v.skip(1).skip(i + 1)),
            ),
            None => None,
        }
    } else {
        None
    }
}

/// Split off the version part: at the last `@`, or else at the last
/// `:` provided it follows the last `/`. `None` as the second
/// component means no separator was found.
pub open spec fn spec_version_split(rest: Seq<char>) -> (Seq<char>, Option<Seq<char>>) {
    match spec_rfind(rest, '@') {
        Some(i) => (rest.take(i), Some(rest.skip(i))),
        None => match spec_rfind(rest, ':') {
            Some(i) => if spec_rfind(rest, '/') is None || spec_rfind(rest, '/').unwrap() < i {
                (rest.take(i), Some(rest.skip(i)))
            } else {
                (rest, None)
            },
            None => (rest, None),
        },
    }
}

/// Does a first path segment name a registry host rather than a
/// namespace? Hosts are recognized by a dot or a port colon.
pub open spec fn spec_is_host(s: Seq<char>) -> bool {
    s.contains('.') || s.contains(':')
}

/// Split the name into registry and repository: a bare name maps to
/// `library/<name>` on the default registry; `first/second` is a
/// namespaced Hub repository unless `first` looks like a host; with
/// more segments the first is the registry and the rest the
/// repository.
pub open spec fn spec_repo_split(name: Seq<char>) -> (Seq<char>, Seq<char>) {
    match spec_rfind(name, '/') {
        None => (spec_default_registry(), spec_library_prefix() + name),
        Some(i1) => match spec_rfind(name.take(i1), '/') {
            None => if spec_is_host(name.take(i1)) {
                (name.take(i1), name.skip(i1 + 1))
            } else {
                (spec_default_registry(), name)
            },
            Some(i0) => match spec_find(name, '/') {
                Some(f) => (name.take(f), name.skip(f + 1)),
                None => (spec_default_registry(), name),
            },
        },
    }
}

/// The whole parse. `None` stands for a rejected input: an empty name,
/// a repository outside 1 to 127 characters, or a malformed version.
pub open spec fn spec_parse_reference(s: Seq<char>) -> Option<ReferenceView> {
    let has_schema = spec_starts_with(s, "docker://"@);
    let rest = if has_schema {
        s.skip("docker://"@.len() as int)
    } else {
        s
    };
    let (name, verpart) = spec_version_split(rest);
    let ver = match verpart {
        Some(v) => spec_version_of(v),
        None => Some(VersionView::Tag("latest"@)),
    };
    match ver {
        None => None,
        Some(vv) => if name.len() < 1 {
            None
        } else {
            let (reg, repo) = spec_repo_split(name);
            if repo.len() < 1 || repo.len() > 127 {
                None
            } else {
                Some(
                    ReferenceView {
                        has_schema,
                        raw_input: s,
                        registry: reg,
                        repository: repo,
                        version: vv,
                    },
                )
            }
        },
    }
}

/// Parse the version part after its separator.
fn parse_version(v: &str) -> (r: Result<Version, Error>)
    ensures
        match r {
            Ok(ver) => spec_version_of(v@) == Some(ver@),
            Err(e) => spec_version_of(v@) is None,
        },
{
    let n = v.unicode_len();
    if n == 0 {
        return Err(Error::InvalidReference(String::from_str("too short")));
    }
    let c0 = v.get_char(0);
    if c0 == ':' {
        let t = substr_to_string(v, 1, n);
        proof {
            assert(v@.skip(1) =~= v@.subrange(1, n as int));
        }
        Ok(Version::Tag(t))
    } else if c0 == '@' {
        let rest = v.substring_char(1, n);
        proof {
            assert(rest@ =~= v@.skip(1));
        }
        match find_char(rest, ':') {
            Some(i) => {
                let m = rest.unicode_len();
                let algo = substr_to_string(rest, 0, i);
                let hex = substr_to_string(rest, i + 1, m);
                proof {
                    crate::strutil::lemma_find_is_first(rest@, ':');
                    assert(algo@ =~= v@.skip(1).take(i as int));
                    assert(hex@ =~= v@.skip(1).skip(i + 1));
                }
                Ok(Version::Digest(algo, hex))
            },
            None => Err(Error::InvalidReference(String::from_str("wrong digest format"))),
        }
    } else {
        Err(Error::InvalidReference(String::from_str("unknown prefix")))
    }
}

/// Parse an image reference string.
///
/// Returns `Ok` exactly when [`spec_parse_reference`] accepts the
/// input, and then carries its value.
pub fn parse_url(s: &str) -> (r: Result<Reference, Error>)
    ensures
        match r {
            Ok(rf) => spec_parse_reference(s@) == Some(rf@),
            Err(e) => spec_parse_reference(s@) is None,
        },
{
    let n = s.unicode_len();
    let has_schema = starts_with_str(s, "docker://");
    let rest: &str = if has_schema {
        proof {
            reveal_strlit("docker://");
        }
        let stripped = s.substring_char(9, n);
        proof {
            assert(stripped@ =~= s@.skip("docker://"@.len() as int));
        }
        stripped
    } else {
        s
    };
    let ghost spec_rest = if spec_starts_with(s@, "docker://"@) {
        s@.skip("docker://"@.len() as int)
    } else {
        s@
    };
    let n_rest = rest.unicode_len();
    let mut verpart: Option<&str> = None;
    let name: &str = match rfind_char(rest, '@') {
        Some(i) => {
            verpart = Some(rest.substring_char(i, n_rest));
            rest.substring_char(0, i)
        },
        None => match rfind_char(rest, ':') {
            Some(i) => {
                let eligible = match rfind_char(rest, '/') {
                    None => true,
                    Some(j) => j < i,
                };
                if eligible {
                    verpart = Some(rest.substring_char(i, n_rest));
                    rest.substring_char(0, i)
                } else {
                    rest
                }
            },
            None => rest,
        },
    };
    proof {
        assert(rest@ =~= spec_rest);
        match verpart {
            Some(v) => {
                assert(name@ =~= spec_version_split(spec_rest).0);
                assert(v@ =~= spec_version_split(spec_rest).1.unwrap());
            },
            None => {
                assert(name@ =~= spec_version_split(spec_rest).0);
                assert(spec_version_split(spec_rest).1 is None);
            },
        }
    }
    let version: Version = match verpart {
        Some(v) => match parse_version(v) {
            Ok(ver) => ver,
            Err(e) => {
                return Err(e);
            },
        },
        None => Version::Tag(String::from_str("latest")),
    };
    let n_name = name.unicode_len();
    if n_name < 1 {
        return Err(Error::InvalidReference(String::from_str("name too short")));
    }
    let registry: String;
    let repository: String;
    match rfind_char(name, '/') {
        None => {
            let mut repo = String::from_str("library/");
            repo.append(name);
            proof {
                assert(repo@ == spec_library_prefix() + name@);
            }
            registry = String::from_str("registry-1.docker.io");
            repository = repo;
        },
        Some(i1) => {
            let head = name.substring_char(0, i1);
            proof {
                assert(head@ =~= name@.take(i1 as int));
            }
            match rfind_char(head, '/') {
                None => {
                    if contains_char(head, '.') || contains_char(head, ':') {
                        registry = substr_to_string(name, 0, i1);
                        repository = substr_to_string(name, i1 + 1, n_name);
                        proof {
                            assert(registry@ =~= name@.take(i1 as int));
                            assert(repository@ =~= name@.skip(i1 + 1));
                        }
                    } else {
                        registry = String::from_str("registry-1.docker.io");
                        repository = String::from_str(name);
                    }
                },
                Some(_) => {
                    let first = match find_char(name, '/') {
                        Some(f) => f,
                        None => {
                            proof {
                                crate::strutil::lemma_find_is_first(name@, '/');
                                assert(name@[i1 as int] == '/');
                            }
                            i1
                        },
                    };
                    registry = substr_to_string(name, 0, first);
                    repository = substr_to_string(name, first + 1, n_name);
                    proof {
                        assert(registry@ =~= name@.take(first as int));
                        assert(repository@ =~= name@.skip(first + 1));
                    }
                },
            }
        },
    }
    proof {
        assert(registry@ == spec_repo_split(name@).0);
        assert(repository@ == spec_repo_split(name@).1);
    }
    if repository.as_str().unicode_len() < 1 {
        return Err(Error::InvalidReference(String::from_str("empty repository")));
    }
    if repository.as_str().unicode_len() > 127 {
        return Err(Error::InvalidReference(String::from_str("name too long")));
    }
    Ok(
        Reference {
            has_schema,
            raw_input: String::from_str(s),
            registry,
            repository,
            version,
        },
    )
}

impl Reference {
    /// Assemble a reference from parts, defaulting the registry to
    /// Docker Hub and the version to the tag `latest`.
    pub fn new(registry: Option<String>, repository: String, version: Option<Version>) -> (r:
        Self)
        ensures
            r@.registry == (match registry {
                Some(reg) => reg@,
                None => spec_default_registry(),
            }),
            r@.repository == repository@,
            r@.version == (match version {
                Some(v) => v@,
                None => VersionView::Tag("latest"@),
            }),
            !r@.has_schema,
            r@.raw_input == Seq::<char>::empty(),
    {
        let reg = match registry {
            Some(reg) => reg,
            None => String::from_str("registry-1.docker.io"),
        };
        let ver = match version {
            Some(v) => v,
            None => Version::Tag(String::from_str("latest")),
        };
        Reference {
            has_schema: false,
            raw_input: String::new(),
            registry: reg,
            repository,
            version: ver,
        }
    }

    /// The registry host this reference points at.
    pub fn registry(&self) -> (r: String)
        ensures
            r@ == self@.registry,
    {
        self.registry.clone()
    }

    /// The repository path within the registry.
    pub fn repository(&self) -> (r: String)
        ensures
            r@ == self@.repository,
    {
        self.repository.clone()
    }

    /// The version: a bare tag, or `algorithm:hex`.
    pub fn version(&self) -> (r: String)
        ensures
            r@ == spec_version_string(self@.version),
    {
        self.version.to_version_string()
    }

    /// The string this reference was parsed from.
    pub fn to_raw_string(&self) -> (r: String)
        ensures
            r@ == self@.raw_input,
    {
        self.raw_input.clone()
    }

    /// The canonical `docker://` URL of this reference.
    pub fn to_url(&self) -> (r: String)
        ensures
            r@ == spec_canonical(self@),
    {
        let mut r = String::from_str("docker://");
        r.append(self.registry.as_str());
        r.push('/');
        r.append(self.repository.as_str());
        match &self.version {
            Version::Tag(t) => {
                r.push(':');
                r.append(t.as_str());
            },
            Version::Digest(a, h) => {
                r.push('@');
                r.append(a.as_str());
                r.push(':');
                r.append(h.as_str());
            },
        }
        proof {
            reveal_strlit(":");
            reveal_strlit("@");
            reveal_strlit("/");
            assert(r@ =~= spec_canonical(self@));
        }
        r
    }

    /// The canonical string form; parsing it yields back the same
    /// coordinate for well-formed references.
    pub fn to_canonical_string(&self) -> (r: String)
        ensures
            r@ == spec_canonical(self@),
    {
        self.to_url()
    }
}

/// Canonical rendering: `docker://<registry>/<repository>` followed by
/// the prefixed version.
pub open spec fn spec_canonical(r: ReferenceView) -> Seq<char> {
    "docker://"@ + r.registry + "/"@ + r.repository + spec_version_prefixed(r.version)
}

/// A bare image name resolves to repository `library/<name>` with tag
/// `latest` on the default registry.
///
/// Bare means: nonempty, free of `/`, `:` and `@`, and short enough
/// that the `library/` prefix keeps the repository within 127
/// characters.
pub proof fn lemma_bare_name_defaults(s: Seq<char>)
    requires
        s.len() >= 1,
        s.len() + 8 <= 127,
        !s.contains('/'),
        !s.contains(':'),
        !s.contains('@'),
    ensures
        spec_parse_reference(s) matches Some(r) && {
            &&& r.registry == spec_default_registry()
            &&& r.repository == spec_library_prefix() + s
            &&& r.version == VersionView::Tag("latest"@)
        },
{
    reveal_strlit("docker://");
    reveal_strlit("library/");
    assert(!spec_starts_with(s, "docker://"@)) by {
        if spec_starts_with(s, "docker://"@) {
            assert(s.subrange(0, 9)[6] == s[6]);
            assert(s[6] == ':');
            assert(s.contains(':'));
        }
    }
    assert forall|j: int| 0 <= j < s.len() implies s[j] != '@' by {
        if s[j] == '@' {
            assert(s.contains('@'));
        }
    }
    assert forall|j: int| 0 <= j < s.len() implies s[j] != ':' by {
        if s[j] == ':' {
            assert(s.contains(':'));
        }
    }
    assert forall|j: int| 0 <= j < s.len() implies s[j] != '/' by {
        if s[j] == '/' {
            assert(s.contains('/'));
        }
    }
    crate::strutil::lemma_rfind_none(s, '@');
    crate::strutil::lemma_rfind_none(s, ':');
    crate::strutil::lemma_rfind_none(s, '/');
}

/// Canonical strings re-parse to the same coordinate.
///
/// The round trip holds for every reference whose components are
/// shaped as the parser itself shapes them (see
/// [`lemma_parse_canonical_round_trip`]): the registry is free of `/`
/// and reads as a host whenever the repository holds no `/`; the
/// repository is 1 to 127 characters; a tag is free of `/`, `:` and
/// `@`, and then registry and repository are free of `@` too; a
/// digest algorithm is free of `:` and `@`, and a digest hex free of
/// `@`.
pub proof fn lemma_canonical_round_trip(r: ReferenceView)
    requires
        !r.registry.contains('/'),
        1 <= r.repository.len() <= 127,
        spec_rfind(r.repository, '/') is None ==> spec_is_host(r.registry),
        match r.version {
            VersionView::Tag(t) => !t.contains('/') && !t.contains(':') && !t.contains('@')
                && !r.registry.contains('@') && !r.repository.contains('@'),
            VersionView::Digest(a, h) => !a.contains(':') && !a.contains('@') && !h.contains(
                '@',
            ),
        },
    ensures
        spec_parse_reference(spec_canonical(r)) matches Some(q) && {
            &&& q.registry == r.registry
            &&& q.repository == r.repository
            &&& q.version == r.version
        },
{
    reveal_strlit("docker://");
    reveal_strlit("/");
    reveal_strlit(":");
    reveal_strlit("@");
    let reg = r.registry;
    let repo = r.repository;
    let rl = reg.len() as int;
    let pl = repo.len() as int;
    let cs = spec_canonical(r);
    let vp = spec_version_prefixed(r.version);
    assert(cs.subrange(0, 9) =~= "docker://"@);
    assert(spec_starts_with(cs, "docker://"@));
    let rest = cs.skip(9);
    let name = reg + "/"@ + repo;
    assert(rest =~= name + vp);
    lemma_name_split(r.registry, r.repository);
    match r.version {
        VersionView::Tag(t) => {
            let tl = t.len() as int;
            let sep = rl + 1 + pl;
            assert(rest.len() == sep + 1 + tl);
            assert(rest[sep] == ':');
            assert forall|j: int| 0 <= j < rest.len() implies rest[j] != '@' by {
                if j < sep {
                    assert(rest[j] == name[j]);
                    lemma_name_no_at(reg, repo, j);
                } else if j == sep {
                } else {
                    assert(rest[j] == t[j - sep - 1]);
                    if t[j - sep - 1] == '@' {
                        assert(t.contains('@'));
                    }
                }
            }
            crate::strutil::lemma_rfind_none(rest, '@');
            assert forall|j: int| sep < j < rest.len() implies rest[j] != ':' by {
                assert(rest[j] == t[j - sep - 1]);
                if t[j - sep - 1] == ':' {
                    assert(t.contains(':'));
                }
            }
            crate::strutil::lemma_rfind_at(rest, ':', sep);
            assert forall|j: int| sep < j < rest.len() implies rest[j] != '/' by {
                if j > sep {
                    assert(rest[j] == (if j == sep { ':' } else { t[j - sep - 1] }));
                    if t[j - sep - 1] == '/' {
                        assert(t.contains('/'));
                    }
                }
            }
            assert(rest[rl] == '/');
            let lastslash = spec_rfind(rest, '/');
            crate::strutil::lemma_rfind_is_last(rest, '/');
            assert(lastslash matches Some(ls) && ls < sep) by {
                assert(rest[rl] == '/');
                if lastslash is None {
                    assert(rest[rl] != '/');
                }
            }
            assert(spec_version_split(rest) == (rest.take(sep), Some(rest.skip(sep))));
            assert(rest.take(sep) =~= name);
            assert(rest.skip(sep) =~= ":"@ + t);
            let v = rest.skip(sep);
            assert(v[0] == ':');
            assert(v.skip(1) =~= t);
            assert(spec_version_of(v) == Some(VersionView::Tag(v.skip(1))));
        },
        VersionView::Digest(a, h) => {
            let al = a.len() as int;
            let hl = h.len() as int;
            let sep = rl + 1 + pl;
            assert(rest.len() == sep + 1 + al + 1 + hl);
            assert(rest[sep] == '@');
            assert forall|j: int| sep < j < rest.len() implies rest[j] != '@' by {
                if sep < j < sep + 1 + al {
                    assert(rest[j] == a[j - sep - 1]);
                    if a[j - sep - 1] == '@' {
                        assert(a.contains('@'));
                    }
                } else if j == sep + 1 + al {
                    assert(rest[j] == ':');
                } else {
                    assert(rest[j] == h[j - sep - 2 - al]);
                    if h[j - sep - 2 - al] == '@' {
                        assert(h.contains('@'));
                    }
                }
            }
            crate::strutil::lemma_rfind_at(rest, '@', sep);
            assert(spec_version_split(rest) == (rest.take(sep), Some(rest.skip(sep))));
            assert(rest.take(sep) =~= name);
            let v = rest.skip(sep);
            assert(v =~= "@"@ + a + ":"@ + h);
            assert(v[0] == '@');
            let w = v.skip(1);
            assert(w =~= a + ":"@ + h);
            assert(w[al] == ':');
            assert forall|j: int| 0 <= j < al implies w[j] != ':' by {
                assert(w[j] == a[j]);
                if a[j] == ':' {
                    assert(a.contains(':'));
                }
            }
            crate::strutil::lemma_find_at(w, ':', al);
            assert(w.take(al) =~= a);
            assert(w.skip(al + 1) =~= h);
            assert(spec_version_of(v) == Some(VersionView::Digest(a, h)));
        },
    }
}

/// Every accepted reference string round-trips: the canonical string
/// of any parse result re-parses to the same registry, repository and
/// version. The proof derives, case by case over the version
/// separator, that a parse only ever yields components shaped as
/// [`lemma_canonical_round_trip`] requires.
pub proof fn lemma_parse_canonical_round_trip(s: Seq<char>)
    requires
        spec_parse_reference(s) is Some,
    ensures
        spec_parse_reference(s) matches Some(r) && spec_parse_reference(spec_canonical(r))
            matches Some(q) && q.registry == r.registry && q.repository == r.repository
            && q.version == r.version,
{
    reveal_strlit("latest");
    let has = spec_starts_with(s, "docker://"@);
    let rest = if has {
        s.skip("docker://"@.len() as int)
    } else {
        s
    };
    let name = spec_version_split(rest).0;
    let (reg, repo) = spec_repo_split(name);
    assert(name.len() >= 1);
    assert(1 <= repo.len() <= 127);
    lemma_repo_split_shape(name);
    let latest = "latest"@;
    assert(forall|j: int|
        0 <= j < latest.len() ==> latest[j] != '/' && latest[j] != ':' && latest[j] != '@');
    assert(!latest.contains('/') && !latest.contains(':') && !latest.contains('@'));
    match spec_rfind(rest, '@') {
        Some(at) => {
            crate::strutil::lemma_rfind_is_last(rest, '@');
            let v = rest.skip(at);
            assert(spec_version_split(rest) == (rest.take(at), Some(v)));
            assert(v[0] == rest[at]);
            let w = v.skip(1);
            assert forall|j: int| 0 <= j < w.len() implies #[trigger] w[j] != '@' by {
                assert(w[j] == rest[at + 1 + j]);
            }
            match spec_find(w, ':') {
                Some(i) => {
                    crate::strutil::lemma_find_is_first(w, ':');
                    let a = w.take(i);
                    let h = w.skip(i + 1);
                    assert forall|j: int| 0 <= j < a.len() implies #[trigger] a[j] != ':' && a[j]
                        != '@' by {
                        assert(a[j] == w[j]);
                    }
                    assert forall|j: int| 0 <= j < h.len() implies #[trigger] h[j] != '@' by {
                        assert(h[j] == w[i + 1 + j]);
                    }
                    assert(!a.contains(':') && !a.contains('@') && !h.contains('@'));
                    let r = ReferenceView {
                        has_schema: has,
                        raw_input: s,
                        registry: reg,
                        repository: repo,
                        version: VersionView::Digest(a, h),
                    };
                    assert(spec_parse_reference(s) == Some(r));
                    lemma_canonical_round_trip(r);
                },
                None => {
                    assert(spec_version_of(v) is None);
                },
            }
        },
        None => {
            crate::strutil::lemma_rfind_is_last(rest, '@');
            crate::strutil::lemma_rfind_is_last(rest, ':');
            crate::strutil::lemma_rfind_is_last(rest, '/');
            assert forall|j: int| 0 <= j < name.len() implies #[trigger] name[j] != '@' by {
                match spec_rfind(rest, ':') {
                    Some(i) => {
                        if spec_rfind(rest, '/') is None || spec_rfind(rest, '/').unwrap()
                            < i {
                            assert(name == rest.take(i));
                            assert(name[j] == rest[j]);
                        } else {
                            assert(name == rest);
                        }
                    },
                    None => {
                        assert(name == rest);
                    },
                }
            }
            lemma_repo_split_no_at(name);
            let eligible = match spec_rfind(rest, ':') {
                Some(i) => spec_rfind(rest, '/') is None || spec_rfind(rest, '/').unwrap()
                    < i,
                None => false,
            };
            if eligible {
                let i = spec_rfind(rest, ':').unwrap();
                let v = rest.skip(i);
                assert(spec_version_split(rest) == (rest.take(i), Some(v)));
                assert(v[0] == rest[i]);
                let t = v.skip(1);
                assert forall|j: int| 0 <= j < t.len() implies #[trigger] t[j] != ':' && t[j]
                    != '@' && t[j] != '/' by {
                    assert(t[j] == rest[i + 1 + j]);
                }
                assert(!t.contains(':') && !t.contains('@') && !t.contains('/'));
                let r = ReferenceView {
                    has_schema: has,
                    raw_input: s,
                    registry: reg,
                    repository: repo,
                    version: VersionView::Tag(t),
                };
                assert(spec_parse_reference(s) == Some(r));
                lemma_canonical_round_trip(r);
            } else {
                assert(spec_version_split(rest) == (rest, None::<Seq<char>>));
                let r = ReferenceView {
                    has_schema: has,
                    raw_input: s,
                    registry: reg,
                    repository: repo,
                    version: VersionView::Tag(latest),
                };
                assert(spec_parse_reference(s) == Some(r));
                lemma_canonical_round_trip(r);
            }
        },
    }
}

/// Every character of `<registry>/<repository>` under the round-trip
/// conditions is drawn from the registry, the separating slash, or the
/// repository; none is an `@`.
proof fn lemma_name_no_at(reg: Seq<char>, repo: Seq<char>, j: int)
    requires
        !reg.contains('@'),
        !repo.contains('@'),
        0 <= j < reg.len() + 1 + repo.len(),
    ensures
        (reg + "/"@ + repo)[j] != '@',
{
    reveal_strlit("/");
    let rl = reg.len() as int;
    let name = reg + "/"@ + repo;
    if j < rl {
        assert(name[j] == reg[j]);
        if reg[j] == '@' {
            assert(reg.contains('@'));
        }
    } else if j == rl {
        assert(name[j] == '/');
    } else {
        assert(name[j] == repo[j - rl - 1]);
        if repo[j - rl - 1] == '@' {
            assert(repo.contains('@'));
        }
    }
}

/// Splitting `<registry>/<repository>` back into registry and
/// repository recovers both parts: the separating slash is the first
/// slash when the repository holds more, and the only one otherwise.
proof fn lemma_name_split(reg: Seq<char>, repo: Seq<char>)
    requires
        !reg.contains('/'),
        spec_rfind(repo, '/') is None ==> spec_is_host(reg),
    ensures
        spec_repo_split(reg + "/"@ + repo) == (reg, repo),
{
    reveal_strlit("/");
    let rl = reg.len() as int;
    let name = reg + "/"@ + repo;
    assert(name[rl] == '/');
    assert forall|j: int| 0 <= j < rl implies name[j] != '/' by {
        assert(name[j] == reg[j]);
        if reg[j] == '/' {
            assert(reg.contains('/'));
        }
    }
    match spec_rfind(repo, '/') {
        None => {
            assert forall|j: int| rl < j < name.len() implies name[j] != '/' by {
                assert(name[j] == repo[j - rl - 1]);
                crate::strutil::lemma_rfind_is_last(repo, '/');
            }
            crate::strutil::lemma_rfind_at(name, '/', rl);
            assert(name.take(rl) =~= reg);
            assert(name.skip(rl + 1) =~= repo);
            crate::strutil::lemma_rfind_none(reg, '/');
            assert(spec_repo_split(name) == (name.take(rl), name.skip(rl + 1)));
        },
        Some(p) => {
            crate::strutil::lemma_rfind_is_last(repo, '/');
            let i1 = rl + 1 + p;
            assert(name[i1] == repo[p]);
            assert forall|j: int| i1 < j < name.len() implies name[j] != '/' by {
                assert(name[j] == repo[j - rl - 1]);
            }
            crate::strutil::lemma_rfind_at(name, '/', i1);
            let head = name.take(i1);
            assert(head[rl] == '/');
            crate::strutil::lemma_rfind_is_last(head, '/');
            if spec_rfind(head, '/') is None {
                assert(head[rl] != '/');
            }
            crate::strutil::lemma_find_at(name, '/', rl);
            assert(name.take(rl) =~= reg);
            assert(name.skip(rl + 1) =~= repo);
            assert(spec_repo_split(name) == (name.take(rl), name.skip(rl + 1)));
        },
    }
}

/// Facts the default registry's literal gives: it reads as a host and
/// holds neither slash nor at-sign.
proof fn lemma_default_registry_chars()
    ensures
        spec_is_host(spec_default_registry()),
        !spec_default_registry().contains('/'),
        !spec_default_registry().contains('@'),
{
    reveal_strlit("registry-1.docker.io");
    let d = spec_default_registry();
    assert(d[10] == '.');
    assert(d.contains('.'));
    assert(forall|j: int| 0 <= j < d.len() ==> d[j] != '/');
    assert(forall|j: int| 0 <= j < d.len() ==> d[j] != '@');
}

/// Whatever the name, the registry the split yields is free of
/// slashes, and when the repository it yields has none either, that
/// registry reads as a host.
proof fn lemma_repo_split_shape(name: Seq<char>)
    requires
        name.len() >= 1,
    ensures
        ({
            let (reg, repo) = spec_repo_split(name);
            &&& !reg.contains('/')
            &&& (spec_rfind(repo, '/') is None ==> spec_is_host(reg))
        }),
{
    reveal_strlit("library/");
    lemma_default_registry_chars();
    crate::strutil::lemma_rfind_is_last(name, '/');
    match spec_rfind(name, '/') {
        None => {
            let repo = spec_library_prefix() + name;
            assert(repo[7] == '/');
            crate::strutil::lemma_rfind_is_last(repo, '/');
            if spec_rfind(repo, '/') is None {
                assert(repo[7] != '/');
            }
        },
        Some(i1) => {
            let head = name.take(i1);
            crate::strutil::lemma_rfind_is_last(head, '/');
            match spec_rfind(head, '/') {
                None => {
                    if spec_is_host(head) {
                        assert(!head.contains('/'));
                    }
                },
                Some(i0) => {
                    assert(head[i0] == '/');
                    assert(name[i0] == '/');
                    crate::strutil::lemma_find_is_first(name, '/');
                    match spec_find(name, '/') {
                        Some(f) => {
                            let reg = name.take(f);
                            let repo = name.skip(f + 1);
                            assert forall|j: int| 0 <= j < reg.len() implies reg[j] != '/' by {
                                assert(reg[j] == name[j]);
                            }
                            assert(!reg.contains('/'));
                            assert(f <= i0 < i1);
                            assert(repo[i1 - f - 1] == name[i1]);
                            crate::strutil::lemma_rfind_is_last(repo, '/');
                            if spec_rfind(repo, '/') is None {
                                assert(repo[i1 - f - 1] != '/');
                            }
                        },
                        None => {
                            assert(name[i0] != '/');
                        },
                    }
                },
            }
        },
    }
}

/// An at-sign-free name splits into an at-sign-free registry and
/// repository: the split only rearranges the name's characters, the
/// default registry, and the `library/` prefix.
proof fn lemma_repo_split_no_at(name: Seq<char>)
    requires
        name.len() >= 1,
        forall|j: int| 0 <= j < name.len() ==> name[j] != '@',
    ensures
        ({
            let (reg, repo) = spec_repo_split(name);
            !reg.contains('@') && !repo.contains('@')
        }),
{
    reveal_strlit("library/");
    lemma_default_registry_chars();
    crate::strutil::lemma_rfind_is_last(name, '/');
    crate::strutil::lemma_find_is_first(name, '/');
    match spec_rfind(name, '/') {
        None => {
            let repo = spec_library_prefix() + name;
            assert(forall|j: int| 0 <= j < 8 ==> spec_library_prefix()[j] != '@');
            assert forall|j: int| 0 <= j < repo.len() implies repo[j] != '@' by {
                if j < 8 {
                    assert(repo[j] == spec_library_prefix()[j]);
                } else {
                    assert(repo[j] == name[j - 8]);
                }
            }
            assert(!repo.contains('@'));
        },
        Some(i1) => {
            assert forall|j: int| 0 <= j < name.take(i1).len() implies #[trigger] name.take(
                i1,
            )[j] != '@' by {
                assert(name.take(i1)[j] == name[j]);
            }
            assert forall|j: int|
                0 <= j < name.skip(i1 + 1).len() implies #[trigger] name.skip(i1 + 1)[j]
                != '@' by {
                assert(name.skip(i1 + 1)[j] == name[i1 + 1 + j]);
            }
            assert(!name.take(i1).contains('@'));
            assert(!name.skip(i1 + 1).contains('@'));
            assert(!name.contains('@'));
            match spec_rfind(name.take(i1), '/') {
                None => {},
                Some(_) => {
                    match spec_find(name, '/') {
                        Some(f) => {
                            assert forall|j: int|
                                0 <= j < name.take(f).len() implies #[trigger] name.take(f)[j]
                                != '@' by {
                                assert(name.take(f)[j] == name[j]);
                            }
                            assert forall|j: int|
                                0 <= j < name.skip(f + 1).len() implies #[trigger] name.skip(
                                f + 1,
                            )[j] != '@' by {
                                assert(name.skip(f + 1)[j] == name[f + 1 + j]);
                            }
                            assert(!name.take(f).contains('@'));
                            assert(!name.skip(f + 1).contains('@'));
                        },
                        None => {},
                    }
                },
            }
        },
    }
}

impl core::str::FromStr for Reference {
    type Err = Error;

    /// Parse an image reference string; see [`parse_url`].
    fn from_str(s: &str) -> Result<Self, Error> {
        parse_url(s)
    }
}

} // verus!
