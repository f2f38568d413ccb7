//! Asking the image registry: its answers are kept for a while.
use crate::error::{outcome, ErrorView, RustmoteError};
use crate::path::PathStyle;
use crate::storage::{file_below, file_in};
use crate::text::{
    clone_all, concat, concat3, join, opt_clone, opt_view, starts_with, text_join, text_starts_with,
    text_trim_end_char, trim_end_char, views,
};
use crate::textmap::TextMap;
use crate::time::{elapsed_nanos, is_within, longest_chrono_nanos, within, TimeSpan, Timestamp};
use vstd::prelude::*;

verus! {

/// Seconds for which an answer is kept.
pub const DEFAULT_TTL: u64 = 3600;

/// The name of the file that keeps the answers.
pub const CACHE_FILE_NAME: &'static str = "docker-hub-cache.toml";

/// The environment variable that names another cache directory than the platform's.
pub const CACHE_DIR_ENV: &'static str = "RUSTMOTE_CACHE_DIR";

/// Where the registry is.
pub const DEFAULT_REGISTRY_BASE: &'static str = "https://registry-1.docker.io";

/// Where the registry hands out tokens.
pub const DEFAULT_AUTH_BASE: &'static str = "https://auth.docker.io";

/// The file that keeps the answers, in a directory that may not be there.
pub fn cache_path(
    style: PathStyle,
    cache_dir: Result<String, RustmoteError>,
) -> (r: Result<String, RustmoteError>)
    ensures
        outcome(r) == file_in(style, outcome(cache_dir), CACHE_FILE_NAME@),
{
    file_below(style, cache_dir, CACHE_FILE_NAME)
}

// ---------------------------------------------------------------------------------------------
// What is kept
// ---------------------------------------------------------------------------------------------

/// The tags of a repository, and when they were listed.
#[derive(Debug, PartialEq, Eq)]
pub struct TagsEntry<L = Vec<String>> {
    pub cached_at: Timestamp,
    pub tags: L,
}

/// The view of a [`TagsEntry`].
pub type TagsView = TagsEntry<Seq<Seq<char>>>;

impl View for TagsEntry {
    type V = TagsView;

    open spec fn view(&self) -> TagsView {
        TagsEntry { cached_at: self.cached_at, tags: views(self.tags@) }
    }
}

/// The digest of a tag, and when it was resolved.
#[derive(Debug, PartialEq, Eq)]
pub struct DigestEntry<T = String> {
    pub cached_at: Timestamp,
    pub digest: T,
}

/// The view of a [`DigestEntry`].
pub type DigestView = DigestEntry<Seq<char>>;

impl View for DigestEntry {
    type V = DigestView;

    open spec fn view(&self) -> DigestView {
        DigestEntry { cached_at: self.cached_at, digest: self.digest@ }
    }
}

/// The answers that are kept: tags by repository, digests by repository and tag.
#[derive(Debug, PartialEq, Eq)]
pub struct CacheStore<A = TextMap<TagsEntry>, B = TextMap<DigestEntry>> {
    pub tags: A,
    pub digests: B,
}

/// The view of a [`CacheStore`].
pub type CacheView = CacheStore<Map<Seq<char>, TagsView>, Map<Seq<char>, DigestView>>;

impl View for CacheStore {
    type V = CacheView;

    open spec fn view(&self) -> CacheView {
        CacheStore { tags: self.tags@, digests: self.digests@ }
    }
}

impl Default for CacheStore {
    fn default() -> (r: CacheStore)
        ensures
            r@ == (CacheStore {
                tags: Map::<Seq<char>, TagsView>::empty(),
                digests: Map::<Seq<char>, DigestView>::empty(),
            }),
    {
        CacheStore { tags: TextMap::new(), digests: TextMap::new() }
    }
}

/// The key of a digest.
pub open spec fn digest_key_of(repo: Seq<char>, tag: Seq<char>) -> Seq<char> {
    repo + ":"@ + tag
}

/// The key of a digest.
pub fn digest_key(repo: &str, tag: &str) -> (r: String)
    ensures
        r@ == digest_key_of(repo@, tag@),
{
    concat3(repo, ":", tag)
}

/// The tags of a repository that are kept and not too old.
pub open spec fn fresh_tags(cache: CacheView, repo: Seq<char>, ttl: TimeSpan, now: Timestamp) -> Option<
    Seq<Seq<char>>,
> {
    if cache.tags.dom().contains(repo) && within(cache.tags[repo].cached_at, ttl, now) {
        Some(cache.tags[repo].tags)
    } else {
        None
    }
}

/// The digest of a tag that is kept and not too old.
pub open spec fn fresh_digest(
    cache: CacheView,
    repo: Seq<char>,
    tag: Seq<char>,
    ttl: TimeSpan,
    now: Timestamp,
) -> Option<Seq<char>> {
    let key = digest_key_of(repo, tag);
    if cache.digests.dom().contains(key) && within(cache.digests[key].cached_at, ttl, now) {
        Some(cache.digests[key].digest)
    } else {
        None
    }
}

/// What is kept after tags were listed.
pub open spec fn with_tags(
    cache: CacheView,
    repo: Seq<char>,
    tags: Seq<Seq<char>>,
    at: Timestamp,
) -> CacheView {
    CacheStore { tags: cache.tags.insert(repo, TagsEntry { cached_at: at, tags }), ..cache }
}

/// What is kept after a digest was resolved.
pub open spec fn with_digest(
    cache: CacheView,
    repo: Seq<char>,
    tag: Seq<char>,
    digest: Seq<char>,
    at: Timestamp,
) -> CacheView {
    CacheStore {
        digests: cache.digests.insert(
            digest_key_of(repo, tag),
            DigestEntry { cached_at: at, digest },
        ),
        ..cache
    }
}

/// The view of optional tags.
pub open spec fn opt_views(tags: Option<Vec<String>>) -> Option<Seq<Seq<char>>> {
    match tags {
        Some(t) => Some(views(t@)),
        None => None,
    }
}

impl CacheStore {
    /// The tags of a repository, where they are kept and not older than the given span.
    pub fn tag_list_if_fresh(&self, repo: &str, ttl: TimeSpan, now: Timestamp) -> (r: Option<
        Vec<String>,
    >)
        ensures
            opt_views(r) == fresh_tags(self@, repo@, ttl, now),
    {
        match self.tags.get(repo) {
            Some(entry) => if is_within(entry.cached_at, ttl, now) {
                Some(clone_all(&entry.tags))
            } else {
                None
            },
            None => None,
        }
    }

    /// The digest of a tag, where it is kept and not older than the given span.
    pub fn digest_if_fresh(&self, repo: &str, tag: &str, ttl: TimeSpan, now: Timestamp) -> (r:
        Option<String>)
        ensures
            opt_view(r) == fresh_digest(self@, repo@, tag@, ttl, now),
    {
        match self.digests.get(digest_key(repo, tag).as_str()) {
            Some(entry) => if is_within(entry.cached_at, ttl, now) {
                Some(entry.digest.clone())
            } else {
                None
            },
            None => None,
        }
    }

    /// Keeps the tags of a repository.
    pub fn put_tag_list(&mut self, repo: &str, tags: Vec<String>, at: Timestamp)
        ensures
            final(self)@ == with_tags(old(self)@, repo@, views(tags@), at),
    {
        self.tags.insert(repo.to_owned(), TagsEntry { cached_at: at, tags });
    }

    /// Keeps the digest of a tag.
    pub fn put_digest(&mut self, repo: &str, tag: &str, digest: String, at: Timestamp)
        ensures
            final(self)@ == with_digest(old(self)@, repo@, tag@, digest@, at),
    {
        self.digests.insert(digest_key(repo, tag), DigestEntry { cached_at: at, digest });
    }
}

/// What is kept is given back for as long as its span lasts and not from then on; tags and digests,
/// and the answers on other repositories and tags, do not touch each other.
pub proof fn answers_are_kept_for_their_span(
    cache: CacheView,
    repo: Seq<char>,
    tags: Seq<Seq<char>>,
    tag: Seq<char>,
    digest: Seq<char>,
    at: Timestamp,
    now: Timestamp,
    ttl: TimeSpan,
    other: Seq<char>,
    other_tag: Seq<char>,
)
    ensures
        ({
            let listed = with_tags(cache, repo, tags, at);
            let resolved = with_digest(cache, repo, tag, digest, at);
            let young = ttl.spec_nanos() > longest_chrono_nanos() || elapsed_nanos(now, at)
                < ttl.spec_nanos();
            &&& fresh_tags(listed, repo, ttl, now) == if young {
                Some(tags)
            } else {
                None
            }
            &&& fresh_digest(resolved, repo, tag, ttl, now) == if young {
                Some(digest)
            } else {
                None
            }
            &&& other != repo ==> fresh_tags(listed, other, ttl, now) == fresh_tags(
                cache,
                other,
                ttl,
                now,
            )
            &&& fresh_digest(listed, other, other_tag, ttl, now) == fresh_digest(
                cache,
                other,
                other_tag,
                ttl,
                now,
            )
            &&& digest_key_of(other, other_tag) != digest_key_of(repo, tag) ==> fresh_digest(
                resolved,
                other,
                other_tag,
                ttl,
                now,
            ) == fresh_digest(cache, other, other_tag, ttl, now)
            &&& fresh_tags(resolved, other, ttl, now) == fresh_tags(cache, other, ttl, now)
        }),
{
}

/// With an empty span nothing that was kept before, or just now, is given back.
pub proof fn empty_span_keeps_nothing(
    cache: CacheView,
    repo: Seq<char>,
    tag: Seq<char>,
    ttl: TimeSpan,
    now: Timestamp,
)
    requires
        ttl.spec_nanos() == 0,
        cache.tags.dom().contains(repo) ==> elapsed_nanos(now, cache.tags[repo].cached_at) >= 0,
        cache.digests.dom().contains(digest_key_of(repo, tag)) ==> elapsed_nanos(
            now,
            cache.digests[digest_key_of(repo, tag)].cached_at,
        ) >= 0,
    ensures
        fresh_tags(cache, repo, ttl, now) is None,
        fresh_digest(cache, repo, tag, ttl, now) is None,
{
}

// ---------------------------------------------------------------------------------------------
// The client
// ---------------------------------------------------------------------------------------------

/// Answers questions from what is kept, and keeps the registry's answers.
#[derive(Debug, PartialEq, Eq)]
pub struct RegistryClient {
    pub cache: CacheStore,
    /// The file that keeps the answers, if one does.
    pub cache_path: Option<String>,
    pub ttl: TimeSpan,
}

/// What becomes of a question.
#[derive(Debug, PartialEq, Eq)]
pub enum Lookup<V> {
    /// The answer is kept.
    Hit(V),
    /// The registry is to be asked.
    Miss,
}

impl RegistryClient {
    /// A client that keeps answers in memory, for an hour.
    pub fn in_memory() -> (r: RegistryClient)
        ensures
            r.cache@ == (CacheStore {
                tags: Map::<Seq<char>, TagsView>::empty(),
                digests: Map::<Seq<char>, DigestView>::empty(),
            }),
            r.cache_path is None,
            r.ttl.spec_nanos() == DEFAULT_TTL * 1_000_000_000,
    {
        RegistryClient {
            cache: CacheStore::default(),
            cache_path: None,
            ttl: TimeSpan::from_secs(DEFAULT_TTL),
        }
    }

    /// Keeps answers in a file too, and takes over what it held; a file that could not be read
    /// counts as empty.
    pub fn with_cache_path(self, path: &str, held: Result<CacheStore, RustmoteError>) -> (r:
        RegistryClient)
        ensures
            opt_view(r.cache_path) == Some(path@),
            r.ttl == self.ttl,
            match held {
                Ok(store) => r.cache == store,
                Err(_) => r.cache == self.cache,
            },
    {
        let cache = match held {
            Ok(store) => store,
            Err(_) => self.cache,
        };
        RegistryClient { cache, cache_path: Some(path.to_owned()), ttl: self.ttl }
    }

    /// Keeps answers for a span.
    pub fn with_ttl(self, ttl: TimeSpan) -> (r: RegistryClient)
        ensures
            r.ttl == ttl,
            r.cache == self.cache,
            r.cache_path == self.cache_path,
    {
        RegistryClient { cache: self.cache, cache_path: self.cache_path, ttl }
    }

    /// Asks for the tags of a repository.
    pub fn list_tags(&self, repo: &str, now: Timestamp) -> (r: Lookup<Vec<String>>)
        ensures
            match fresh_tags(self.cache@, repo@, self.ttl, now) {
                Some(tags) => r matches Lookup::Hit(t) && views(t@) == tags,
                None => r is Miss,
            },
    {
        match self.cache.tag_list_if_fresh(repo, self.ttl, now) {
            Some(tags) => Lookup::Hit(tags),
            None => Lookup::Miss,
        }
    }

    /// Takes in what the registry answered to a question asked at an instant, and hands it on. An
    /// answer is kept as of that instant, and is to be written to the file that is returned; a
    /// failure leaves everything as it is.
    pub fn tags_listed(
        &mut self,
        repo: &str,
        answer: Result<Vec<String>, RustmoteError>,
        asked_at: Timestamp,
    ) -> (r: (Result<Vec<String>, RustmoteError>, Option<String>))
        ensures
            final(self).cache_path == old(self).cache_path,
            final(self).ttl == old(self).ttl,
            match answer {
                Ok(tags) => (r.0 matches Ok(t) && views(t@) == views(tags@)) && final(self).cache@
                    == with_tags(old(self).cache@, repo@, views(tags@), asked_at) && opt_view(r.1)
                    == opt_view(old(self).cache_path),
                Err(e) => r.0 == answer && r.1 is None && final(self).cache == old(self).cache,
            },
    {
        match answer {
            Ok(tags) => {
                let kept = clone_all(&tags);
                self.cache.put_tag_list(repo, kept, asked_at);
                (Ok(tags), opt_clone(&self.cache_path))
            },
            Err(e) => (Err(e), None),
        }
    }

    /// Asks for the digest of a tag.
    pub fn resolve_digest(&self, repo: &str, tag: &str, now: Timestamp) -> (r: Lookup<String>)
        ensures
            match fresh_digest(self.cache@, repo@, tag@, self.ttl, now) {
                Some(digest) => r matches Lookup::Hit(d) && d@ == digest,
                None => r is Miss,
            },
    {
        match self.cache.digest_if_fresh(repo, tag, self.ttl, now) {
            Some(digest) => Lookup::Hit(digest),
            None => Lookup::Miss,
        }
    }

    /// Takes in what the registry answered to a question asked at an instant, and hands it on. An
    /// answer is kept as of that instant, and is to be written to the file that is returned; a
    /// failure leaves everything as it is.
    pub fn digest_resolved(
        &mut self,
        repo: &str,
        tag: &str,
        answer: Result<String, RustmoteError>,
        asked_at: Timestamp,
    ) -> (r: (Result<String, RustmoteError>, Option<String>))
        ensures
            final(self).cache_path == old(self).cache_path,
            final(self).ttl == old(self).ttl,
            r.0 == answer,
            match answer {
                Ok(digest) => final(self).cache@ == with_digest(
                    old(self).cache@,
                    repo@,
                    tag@,
                    digest@,
                    asked_at,
                ) && opt_view(r.1) == opt_view(old(self).cache_path),
                Err(e) => r.1 is None && final(self).cache == old(self).cache,
            },
    {
        match answer {
            Ok(digest) => {
                let kept = digest.clone();
                self.cache.put_digest(repo, tag, kept, asked_at);
                (Ok(digest), opt_clone(&self.cache_path))
            },
            Err(e) => (Err(e), None),
        }
    }
}

// ---------------------------------------------------------------------------------------------
// The registry's protocol
// ---------------------------------------------------------------------------------------------

/// Where the registry and its token service are, without slashes at the end.
#[derive(Debug, PartialEq, Eq)]
pub struct Endpoints<T = String> {
    pub registry_base: T,
    pub auth_base: T,
}

/// The view of a [`Endpoints`].
pub type EndpointsView = Endpoints<Seq<char>>;

impl View for Endpoints {
    type V = EndpointsView;

    open spec fn view(&self) -> EndpointsView {
        Endpoints { registry_base: self.registry_base@, auth_base: self.auth_base@ }
    }
}

/// What the registry replied to a request.
#[derive(Debug, PartialEq, Eq)]
pub enum HttpReply<V> {
    /// The request could not be sent, for this reason.
    Unsent(String),
    /// It was answered with this status, which is none of success.
    Refused(String),
    /// What it was answered with could not be read, for this reason.
    Undecoded(String),
    /// It was answered with this.
    Got(V),
}

/// The kinds of manifest that are accepted.
pub open spec fn accepted_types() -> Seq<Seq<char>> {
    seq![
        "application/vnd.docker.distribution.manifest.v2+json"@,
        "application/vnd.docker.distribution.manifest.list.v2+json"@,
        "application/vnd.oci.image.manifest.v1+json"@,
        "application/vnd.oci.image.index.v1+json"@,
    ]
}

/// The header that says which kinds of manifest are accepted.
pub fn accept_header() -> (r: String)
    ensures
        r@ == join(accepted_types(), ", "@),
{
    let mut types: Vec<String> = Vec::new();
    types.push("application/vnd.docker.distribution.manifest.v2+json".to_owned());
    types.push("application/vnd.docker.distribution.manifest.list.v2+json".to_owned());
    types.push("application/vnd.oci.image.manifest.v1+json".to_owned());
    types.push("application/vnd.oci.image.index.v1+json".to_owned());
    assert(views(types@) =~= accepted_types());
    text_join(&types, ", ")
}

fn api_error(text: String) -> (r: RustmoteError)
    ensures
        r@ == RustmoteError::RegistryApi(text@),
{
    RustmoteError::RegistryApi(text)
}

impl Endpoints {
    /// A registry and its token service.
    pub fn with_endpoints(registry_base: &str, auth_base: &str) -> (r: Endpoints)
        ensures
            r@ == (Endpoints {
                registry_base: trim_end_char(registry_base@, '/'),
                auth_base: trim_end_char(auth_base@, '/'),
            }),
    {
        Endpoints {
            registry_base: text_trim_end_char(registry_base, '/'),
            auth_base: text_trim_end_char(auth_base, '/'),
        }
    }

    /// Where a token is asked for that allows to read a repository.
    pub fn token_url(&self, repo: &str) -> (r: String)
        ensures
            r@ == self@.auth_base + "/token?service=registry.docker.io&scope=repository:"@ + repo@
                + ":pull"@,
    {
        let mut url = concat3(
            self.auth_base.as_str(),
            "/token?service=registry.docker.io&scope=repository:",
            repo,
        );
        url.push_str(":pull");
        url
    }

    /// Where the tags of a repository are listed.
    pub fn tags_url(&self, repo: &str) -> (r: String)
        ensures
            r@ == self@.registry_base + "/v2/"@ + repo@ + "/tags/list"@,
    {
        let mut url = concat3(self.registry_base.as_str(), "/v2/", repo);
        url.push_str("/tags/list");
        url
    }

    /// Where the manifest of a tag is.
    pub fn manifest_url(&self, repo: &str, tag: &str) -> (r: String)
        ensures
            r@ == self@.registry_base + "/v2/"@ + repo@ + "/manifests/"@ + tag@,
    {
        let mut url = concat3(self.registry_base.as_str(), "/v2/", repo);
        url.push_str("/manifests/");
        url.push_str(tag);
        url
    }
}

/// Why the token service's reply holds no token.
pub open spec fn token_failure(reply: HttpReply<String>) -> Option<ErrorView> {
    match reply {
        HttpReply::Unsent(e) => Some(RustmoteError::RegistryApi("token fetch: "@ + e@)),
        HttpReply::Refused(status) => Some(
            RustmoteError::RegistryApi("token fetch returned "@ + status@),
        ),
        HttpReply::Undecoded(e) => Some(
            RustmoteError::RegistryApi("decoding token body: "@ + e@),
        ),
        HttpReply::Got(_) => None,
    }
}

/// The token that the token service replied with, or why there is none.
pub fn token_from(reply: HttpReply<String>) -> (r: Result<String, RustmoteError>)
    ensures
        match reply {
            HttpReply::Got(token) => r == Ok::<String, RustmoteError>(token),
            _ => r matches Err(e) && token_failure(reply) == Some(e@),
        },
{
    match reply {
        HttpReply::Unsent(e) => Err(api_error(concat("token fetch: ", e.as_str()))),
        HttpReply::Refused(status) => Err(
            api_error(concat("token fetch returned ", status.as_str())),
        ),
        HttpReply::Undecoded(e) => Err(api_error(concat("decoding token body: ", e.as_str()))),
        HttpReply::Got(token) => Ok(token),
    }
}

/// A request to the registry, made with a token.
#[derive(Debug, PartialEq, Eq)]
pub struct RegistryRequest<T = String> {
    pub url: T,
    pub token: T,
    /// The kinds of answer that are accepted, where that matters.
    pub accept: Option<T>,
}

impl Endpoints {
    /// The request for the tags of a repository, once the token service has replied.
    pub fn tags_request(&self, repo: &str, token: HttpReply<String>) -> (r: Result<
        RegistryRequest,
        RustmoteError,
    >)
        ensures
            match token {
                HttpReply::Got(t) => r matches Ok(request) && request.url@ == self@.registry_base
                    + "/v2/"@ + repo@ + "/tags/list"@ && request.token == t
                    && request.accept is None,
                _ => r matches Err(e) && token_failure(token) == Some(e@),
            },
    {
        match token_from(token) {
            Ok(token) => Ok(RegistryRequest { url: self.tags_url(repo), token, accept: None }),
            Err(e) => Err(e),
        }
    }

    /// The request for the manifest of a tag, once the token service has replied.
    pub fn manifest_request(&self, repo: &str, tag: &str, token: HttpReply<String>) -> (r: Result<
        RegistryRequest,
        RustmoteError,
    >)
        ensures
            match token {
                HttpReply::Got(t) => r matches Ok(request) && request.url@ == self@.registry_base
                    + "/v2/"@ + repo@ + "/manifests/"@ + tag@ && request.token == t && opt_view(
                    request.accept,
                ) == Some(join(accepted_types(), ", "@)),
                _ => r matches Err(e) && token_failure(token) == Some(e@),
            },
    {
        match token_from(token) {
            Ok(token) => Ok(
                RegistryRequest {
                    url: self.manifest_url(repo, tag),
                    token,
                    accept: Some(accept_header()),
                },
            ),
            Err(e) => Err(e),
        }
    }
}

/// The tags that the registry replied with, or why there are none.
pub fn tags_from(repo: &str, reply: HttpReply<Vec<String>>) -> (r: Result<
    Vec<String>,
    RustmoteError,
>)
    ensures
        match reply {
            HttpReply::Unsent(e) => r matches Err(x) && x@ == RustmoteError::RegistryApi(
                "tags/list: "@ + e@,
            ),
            HttpReply::Refused(status) => r matches Err(x) && x@ == RustmoteError::RegistryApi(
                "tags/list "@ + repo@ + " returned "@ + status@,
            ),
            HttpReply::Undecoded(e) => r matches Err(x) && x@ == RustmoteError::RegistryApi(
                "decoding tags body: "@ + e@,
            ),
            HttpReply::Got(tags) => r == Ok::<Vec<String>, RustmoteError>(tags),
        },
{
    match reply {
        HttpReply::Unsent(e) => Err(api_error(concat("tags/list: ", e.as_str()))),
        HttpReply::Refused(status) => {
            let mut text = concat3("tags/list ", repo, " returned ");
            text.push_str(status.as_str());
            Err(api_error(text))
        },
        HttpReply::Undecoded(e) => Err(api_error(concat("decoding tags body: ", e.as_str()))),
        HttpReply::Got(tags) => Ok(tags),
    }
}

/// What is said of the manifest of a tag.
pub open spec fn manifest_text(repo: Seq<char>, tag: Seq<char>, rest: Seq<char>) -> Seq<char> {
    "manifest HEAD "@ + repo + ":"@ + tag + rest
}

/// The digest in the header that the registry replied with, or why there is none: the header may
/// be missing, or name another hash than SHA-256.
pub fn digest_from(repo: &str, tag: &str, reply: HttpReply<Option<String>>) -> (r: Result<
    String,
    RustmoteError,
>)
    ensures
        match reply {
            HttpReply::Unsent(e) => r matches Err(x) && x@ == RustmoteError::RegistryApi(
                "manifest HEAD: "@ + e@,
            ),
            HttpReply::Refused(status) => r matches Err(x) && x@ == RustmoteError::RegistryApi(
                manifest_text(repo@, tag@, " returned "@ + status@),
            ),
            HttpReply::Undecoded(_) | HttpReply::Got(None) => r matches Err(x) && x@
                == RustmoteError::RegistryApi(
                manifest_text(repo@, tag@, " missing Docker-Content-Digest header"@),
            ),
            HttpReply::Got(Some(digest)) => if starts_with(digest@, "sha256:"@) {
                r == Ok::<String, RustmoteError>(digest)
            } else {
                r matches Err(x) && x@ == RustmoteError::RegistryApi(
                    "manifest digest '"@ + digest@ + "' is not sha256-prefixed"@,
                )
            },
        },
{
    let mut subject = concat3("manifest HEAD ", repo, ":");
    subject.push_str(tag);
    match reply {
        HttpReply::Unsent(e) => Err(api_error(concat("manifest HEAD: ", e.as_str()))),
        HttpReply::Refused(status) => {
            let rest = concat(" returned ", status.as_str());
            Err(api_error(concat(subject.as_str(), rest.as_str())))
        },
        HttpReply::Undecoded(_) | HttpReply::Got(None) => Err(
            api_error(concat(subject.as_str(), " missing Docker-Content-Digest header")),
        ),
        HttpReply::Got(Some(digest)) => if text_starts_with(digest.as_str(), "sha256:") {
            Ok(digest)
        } else {
            Err(
                api_error(
                    concat3("manifest digest '", digest.as_str(), "' is not sha256-prefixed"),
                ),
            )
        },
    }
}

// ---------------------------------------------------------------------------------------------
// What holds of the client
// ---------------------------------------------------------------------------------------------

/// A client that was told the tags of a repository gives them back for as long as its span, counted
/// from when it asked, and asks again from then on. A failure is not kept.
pub proof fn listed_tags_are_given_again(
    client: &mut RegistryClient,
    after: &RegistryClient,
    repo: &str,
    answer: Result<Vec<String>, RustmoteError>,
    asked_at: Timestamp,
    told: (Result<Vec<String>, RustmoteError>, Option<String>),
    now: Timestamp,
    found: Lookup<Vec<String>>,
)
    requires
        call_ensures(RegistryClient::tags_listed, (client, repo, answer, asked_at), told),
        *after == *final(client),
        call_ensures(RegistryClient::list_tags, (after, repo, now), found),
        after.ttl.spec_nanos() <= longest_chrono_nanos(),
    ensures
        answer matches Ok(tags) ==> {
            &&& told.0 matches Ok(t) && views(t@) == views(tags@)
            &&& opt_view(told.1) == opt_view(old(client).cache_path)
            &&& found is Hit <==> elapsed_nanos(now, asked_at) < old(client).ttl.spec_nanos()
            &&& found matches Lookup::Hit(t) ==> views(t@) == views(tags@)
        },
        answer is Err ==> told.0 == answer && told.1 is None && final(client).cache == old(
            client,
        ).cache,
{
}

/// A client that was told the digest of a tag of a repository gives it back for as long as its
/// span, counted from when it asked, and asks again from then on. A failure is not kept.
pub proof fn resolved_digests_are_given_again(
    client: &mut RegistryClient,
    after: &RegistryClient,
    repo: &str,
    tag: &str,
    answer: Result<String, RustmoteError>,
    asked_at: Timestamp,
    told: (Result<String, RustmoteError>, Option<String>),
    now: Timestamp,
    found: Lookup<String>,
)
    requires
        call_ensures(RegistryClient::digest_resolved, (client, repo, tag, answer, asked_at), told),
        *after == *final(client),
        call_ensures(RegistryClient::resolve_digest, (after, repo, tag, now), found),
        after.ttl.spec_nanos() <= longest_chrono_nanos(),
    ensures
        answer matches Ok(digest) ==> {
            &&& told.0 == answer
            &&& opt_view(told.1) == opt_view(old(client).cache_path)
            &&& found is Hit <==> elapsed_nanos(now, asked_at) < old(client).ttl.spec_nanos()
            &&& found matches Lookup::Hit(d) ==> d@ == digest@
        },
        answer is Err ==> told.0 == answer && told.1 is None && final(client).cache == old(
            client,
        ).cache,
{
}

/// Two tags of one repository are kept apart, and so are two repositories whose names have no
/// colon.
pub proof fn digests_are_kept_apart(
    repo: Seq<char>,
    tag: Seq<char>,
    other: Seq<char>,
    other_tag: Seq<char>,
)
    requires
        !repo.contains(':'),
        !other.contains(':'),
    ensures
        digest_key_of(repo, tag) == digest_key_of(other, other_tag) ==> repo == other && tag
            == other_tag,
{
    reveal_strlit(":");
    let a = digest_key_of(repo, tag);
    let b = digest_key_of(other, other_tag);
    if a == b {
        assert(a[repo.len() as int] == ':');
        assert(b[other.len() as int] == ':');
        if repo.len() < other.len() {
            assert(other[repo.len() as int] == b[repo.len() as int]);
        } else if other.len() < repo.len() {
            assert(repo[other.len() as int] == a[other.len() as int]);
        }
        assert(repo =~= a.take(repo.len() as int));
        assert(other =~= b.take(other.len() as int));
        assert(tag =~= a.skip(repo.len() as int + 1));
        assert(other_tag =~= b.skip(other.len() as int + 1));
    }
}

/// A digest is taken from the registry exactly where it replied with one of SHA-256, and is taken
/// as it is.
pub proof fn only_sha256_digests_are_taken(
    repo: &str,
    tag: &str,
    reply: HttpReply<Option<String>>,
    r: Result<String, RustmoteError>,
)
    requires
        call_ensures(digest_from, (repo, tag, reply), r),
    ensures
        r matches Ok(digest) ==> reply == HttpReply::Got(Some(digest)) && digest@.len() >= 7
            && digest@.take(7) == "sha256:"@,
        r is Err ==> (reply matches HttpReply::Got(Some(digest)) ==> digest@.len() < 7
            || digest@.take(7) != "sha256:"@),
        r matches Err(e) ==> e is RegistryApi,
{
    reveal_strlit("sha256:");
}

/// Requests name the repository, and the tag where there is one, at the registry's base, with the
/// token that was got; without a token nothing is asked.
pub proof fn requests_name_repository_and_tag(
    at: &Endpoints,
    repo: &str,
    tag: &str,
    token: HttpReply<String>,
    for_tags: Result<RegistryRequest, RustmoteError>,
    for_manifest: Result<RegistryRequest, RustmoteError>,
    token_url: String,
)
    requires
        call_ensures(Endpoints::tags_request, (at, repo, token), for_tags),
        call_ensures(Endpoints::manifest_request, (at, repo, tag, token), for_manifest),
        call_ensures(Endpoints::token_url, (at, repo), token_url),
    ensures
        token_url@ == at.auth_base@ + "/token?service=registry.docker.io&scope=repository:"@ + repo@
            + ":pull"@,
        for_tags is Ok <==> token is Got,
        for_manifest is Ok <==> token is Got,
        for_tags matches Ok(request) ==> {
            &&& request.url@ == at.registry_base@ + "/v2/"@ + repo@ + "/tags/list"@
            &&& token == HttpReply::Got(request.token)
            &&& request.accept is None
        },
        for_manifest matches Ok(request) ==> {
            &&& request.url@ == at.registry_base@ + "/v2/"@ + repo@ + "/manifests/"@ + tag@
            &&& token == HttpReply::Got(request.token)
            &&& request.accept is Some
        },
{
}

/// A new client keeps answers for an hour, in memory only, and has none yet. What it is told of a
/// span or a cache file changes that alone, and a cache file that cannot be read leaves what is
/// kept.
pub proof fn clients_keep_answers_for_an_hour(
    r: RegistryClient,
    ttl: TimeSpan,
    other: RegistryClient,
    path: &str,
    held: Result<CacheStore, RustmoteError>,
    stored: RegistryClient,
)
    requires
        call_ensures(RegistryClient::in_memory, (), r),
        call_ensures(RegistryClient::with_ttl, (r, ttl), other),
        call_ensures(RegistryClient::with_cache_path, (r, path, held), stored),
    ensures
        r.ttl.spec_nanos() == 3_600_000_000_000,
        r.cache_path is None,
        forall|repo: Seq<char>| !#[trigger] r.cache@.tags.dom().contains(repo),
        forall|key: Seq<char>| !#[trigger] r.cache@.digests.dom().contains(key),
        other.ttl == ttl,
        other.cache == r.cache,
        stored.cache_path is Some && stored.cache_path->0@ == path@,
        stored.ttl == r.ttl,
        held matches Ok(store) ==> stored.cache == store,
        held is Err ==> stored.cache == r.cache,
{
}

} // verus!
