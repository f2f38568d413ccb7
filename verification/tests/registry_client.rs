use rustmote::error::RustmoteError;
use rustmote::path::PathStyle;
use rustmote::registry_client::{
    accept_header, cache_path, digest_from, digest_key, tags_from, token_from, CacheStore,
    Endpoints, HttpReply, Lookup, RegistryClient, CACHE_DIR_ENV, CACHE_FILE_NAME,
    DEFAULT_AUTH_BASE, DEFAULT_REGISTRY_BASE, DEFAULT_TTL,
};
use rustmote::storage::{stored_or, StoredFile};
use rustmote::time::{is_within, TimeSpan, Timestamp};

fn ago(now: Timestamp, secs: i64) -> Timestamp {
    Timestamp::new(now.secs() - secs, now.nanos()).unwrap()
}

fn strings(items: &[&str]) -> Vec<String> {
    items.iter().map(|s| s.to_string()).collect()
}

/// A registry that counts how often it is asked.
struct Counting {
    tag_calls: usize,
    digest_calls: usize,
}

impl Counting {
    fn new() -> Counting {
        Counting {
            tag_calls: 0,
            digest_calls: 0,
        }
    }

    fn list_tags(&mut self, client: &mut RegistryClient, repo: &str, now: Timestamp) -> Vec<String> {
        match client.list_tags(repo, now) {
            Lookup::Hit(tags) => tags,
            Lookup::Miss => {
                self.tag_calls += 1;
                let answer = Ok(strings(&["1.1.11", "latest"]));
                client.tags_listed(repo, answer, now).0.unwrap()
            }
        }
    }

    fn resolve(&mut self, client: &mut RegistryClient, repo: &str, tag: &str, now: Timestamp) -> String {
        match client.resolve_digest(repo, tag, now) {
            Lookup::Hit(digest) => digest,
            Lookup::Miss => {
                self.digest_calls += 1;
                let answer = Ok("sha256:abc".to_string());
                client.digest_resolved(repo, tag, answer, now).0.unwrap()
            }
        }
    }
}

#[test]
fn cache_store_missing_file_yields_empty() {
    let loaded = stored_or("/c", StoredFile::Missing, CacheStore::default()).unwrap();
    assert!(loaded.tags.is_empty());
    assert!(loaded.digests.is_empty());
}

#[test]
fn tag_list_if_fresh_respects_ttl() {
    let mut store = CacheStore::default();
    let now = Timestamp::now();
    let cached_at = ago(now, 30);
    store.put_tag_list("foo/bar", strings(&["v1"]), cached_at);

    // 60s TTL, 30s elapsed → fresh.
    assert!(store
        .tag_list_if_fresh("foo/bar", TimeSpan::from_secs(60), Timestamp::now())
        .is_some());
    // 10s TTL, 30s elapsed → stale.
    assert!(store
        .tag_list_if_fresh("foo/bar", TimeSpan::from_secs(10), Timestamp::now())
        .is_none());
}

#[test]
fn digest_if_fresh_keys_by_repo_tag_pair() {
    let mut store = CacheStore::default();
    let now = Timestamp::now();
    store.put_digest("foo/bar", "v1", "sha256:a".to_string(), now);
    store.put_digest("foo/bar", "v2", "sha256:b".to_string(), now);

    assert_eq!(
        store.digest_if_fresh("foo/bar", "v1", TimeSpan::from_secs(60), now),
        Some("sha256:a".to_string())
    );
    assert_eq!(
        store.digest_if_fresh("foo/bar", "v2", TimeSpan::from_secs(60), now),
        Some("sha256:b".to_string())
    );
    assert!(store
        .digest_if_fresh("foo/bar", "v3", TimeSpan::from_secs(60), now)
        .is_none());
    assert_eq!(digest_key("foo/bar", "v1"), "foo/bar:v1");
}

#[test]
fn spans_end_exactly() {
    let now = Timestamp::new(1_000, 500).unwrap();
    let span = TimeSpan::from_secs(10);
    assert!(is_within(Timestamp::new(990, 501).unwrap(), span, now));
    assert!(!is_within(Timestamp::new(990, 500).unwrap(), span, now));
    // A clock that went back makes nothing stale.
    assert!(is_within(Timestamp::new(2_000, 0).unwrap(), span, now));
    // A span that chrono cannot hold never ends.
    let endless = TimeSpan::from_secs(u64::MAX);
    assert!(is_within(Timestamp::new(-8_334_601_228_800, 0).unwrap(), endless, now));
    // Across a leap second.
    let leap = Timestamp::new(59, 1_500_000_000).unwrap();
    let after = Timestamp::new(61, 0).unwrap();
    assert!(!is_within(leap, TimeSpan::from_millis(1_500), after));
    assert!(is_within(leap, TimeSpan::from_millis(1_501), after));
}

#[test]
fn instants_outside_the_calendar_are_refused() {
    assert!(Timestamp::new(8_210_266_876_799, 999_999_999).is_some());
    assert!(Timestamp::new(8_210_266_876_800, 0).is_none());
    assert!(Timestamp::new(-8_334_601_228_800, 0).is_some());
    assert!(Timestamp::new(-8_334_601_228_801, 0).is_none());
    assert!(Timestamp::new(58, 1_000_000_000).is_none());
    assert!(Timestamp::new(59, 1_000_000_000).is_some());
    assert!(Timestamp::new(-1, 1_000_000_000).is_some());
    assert!(Timestamp::new(59, 2_000_000_000).is_none());
}

#[test]
fn list_tags_hits_transport_once_under_ttl() {
    let mut client = RegistryClient::in_memory().with_ttl(TimeSpan::from_secs(3600));
    let mut hub = Counting::new();
    let first = hub.list_tags(&mut client, "foo/bar", Timestamp::now());
    let second = hub.list_tags(&mut client, "foo/bar", Timestamp::now());
    assert_eq!(first, second);
    assert_eq!(hub.tag_calls, 1, "second call must be cached");
}

#[test]
fn list_tags_refetches_after_zero_ttl() {
    let mut client = RegistryClient::in_memory().with_ttl(TimeSpan::from_secs(0));
    let mut hub = Counting::new();
    let now = Timestamp::now();
    hub.list_tags(&mut client, "foo/bar", now);
    hub.list_tags(&mut client, "foo/bar", now);
    assert_eq!(hub.tag_calls, 2, "zero TTL means every call is a miss");
}

#[test]
fn resolve_digest_cache_keys_independently_per_tag() {
    let mut client = RegistryClient::in_memory().with_ttl(TimeSpan::from_secs(3600));
    let mut hub = Counting::new();
    let now = Timestamp::now();
    hub.resolve(&mut client, "foo/bar", "v1", now);
    hub.resolve(&mut client, "foo/bar", "v2", now);
    hub.resolve(&mut client, "foo/bar", "v1", now);
    assert_eq!(
        hub.digest_calls, 2,
        "v1 should only be fetched once; v2 fetched once; total = 2"
    );
}

const REPO: &str = "rustdesk/rustdesk-server";

/// A registry with an answer to each question, and the cache file of the client that asks it.
struct Scripted {
    tag_calls: usize,
    digest_calls: usize,
    tags: Vec<String>,
    digest: String,
    file: Option<String>,
}

impl Scripted {
    fn new(tags: &[&str], digest: &str) -> Scripted {
        Scripted {
            tag_calls: 0,
            digest_calls: 0,
            tags: strings(tags),
            digest: digest.to_string(),
            file: None,
        }
    }

    /// A client that takes over what the cache file holds.
    fn client(&self) -> RegistryClient {
        let file = match &self.file {
            None => StoredFile::Missing,
            Some(text) => StoredFile::Holds(read_cache(text)),
        };
        let held = stored_or(CACHE_FILE_NAME, file, CacheStore::default());
        RegistryClient::in_memory()
            .with_cache_path(CACHE_FILE_NAME, held)
            .with_ttl(TimeSpan::from_secs(DEFAULT_TTL))
    }

    fn flush(&mut self, client: &RegistryClient, path: Option<String>) {
        if let Some(path) = path {
            assert_eq!(path, CACHE_FILE_NAME);
            self.file = Some(written_cache(&client.cache));
        }
    }

    fn list_tags(&mut self, client: &mut RegistryClient, now: Timestamp) -> Vec<String> {
        if let Lookup::Hit(tags) = client.list_tags(REPO, now) {
            return tags;
        }
        self.tag_calls += 1;
        let (answer, flush) = client.tags_listed(REPO, Ok(self.tags.clone()), now);
        self.flush(client, flush);
        answer.unwrap()
    }

    fn resolve_digest(&mut self, client: &mut RegistryClient, now: Timestamp) -> String {
        if let Lookup::Hit(digest) = client.resolve_digest(REPO, "1.1.11", now) {
            return digest;
        }
        self.digest_calls += 1;
        let answer = Ok(self.digest.clone());
        let (answer, flush) = client.digest_resolved(REPO, "1.1.11", answer, now);
        self.flush(client, flush);
        answer.unwrap()
    }
}

fn text(s: &str) -> toml::Value {
    toml::Value::String(s.to_string())
}

/// The text of a cache file.
fn written_cache(cache: &CacheStore) -> String {
    let mut tags = toml::Table::new();
    for (repo, entry) in &cache.tags.entries {
        let mut row = toml::Table::new();
        row.insert("cached_at".to_string(), text(&entry.cached_at.rfc3339()));
        let list = entry.tags.iter().map(|t| text(t)).collect();
        row.insert("tags".to_string(), toml::Value::Array(list));
        tags.insert(repo.clone(), toml::Value::Table(row));
    }
    let mut digests = toml::Table::new();
    for (key, entry) in &cache.digests.entries {
        let mut row = toml::Table::new();
        row.insert("cached_at".to_string(), text(&entry.cached_at.rfc3339()));
        row.insert("digest".to_string(), text(&entry.digest));
        digests.insert(key.clone(), toml::Value::Table(row));
    }
    let mut file = toml::Table::new();
    file.insert("tags".to_string(), toml::Value::Table(tags));
    file.insert("digests".to_string(), toml::Value::Table(digests));
    toml::to_string(&file).unwrap()
}

fn read_instant(row: &toml::Value) -> Timestamp {
    let at = row.get("cached_at").unwrap().as_str().unwrap();
    let at = chrono::DateTime::parse_from_rfc3339(at).unwrap();
    Timestamp::new(at.timestamp(), at.timestamp_subsec_nanos()).unwrap()
}

/// The cache that the text of its file holds.
fn read_cache(file: &str) -> CacheStore {
    let file: toml::Table = file.parse().unwrap();
    let mut cache = CacheStore::default();
    for (repo, row) in file.get("tags").unwrap().as_table().unwrap() {
        let list = row.get("tags").unwrap().as_array().unwrap();
        let tags = list.iter().map(|t| t.as_str().unwrap().to_string()).collect();
        cache.put_tag_list(repo, tags, read_instant(row));
    }
    for (key, row) in file.get("digests").unwrap().as_table().unwrap() {
        let (repo, tag) = key.split_once(':').unwrap();
        let digest = row.get("digest").unwrap().as_str().unwrap().to_string();
        cache.put_digest(repo, tag, digest, read_instant(row));
    }
    cache
}

#[test]
fn second_call_within_ttl_reads_disk_cache_without_transport_call() {
    let mut hub = Scripted::new(&["1.1.11", "latest"], "sha256:x");
    let mut client = hub.client();
    let first = hub.list_tags(&mut client, Timestamp::now());
    assert_eq!(first, ["1.1.11", "latest"]);
    assert_eq!(hub.tag_calls, 1);
    assert!(hub.file.is_some(), "cache file should be written after miss");

    // A new client on the same file is served by what the file holds.
    let fresh_client = hub.client();
    let second = fresh_client.list_tags(REPO, Timestamp::now());
    assert_eq!(second, Lookup::Hit(strings(&["1.1.11", "latest"])));
}

#[test]
fn a_cache_file_that_cannot_be_read_counts_as_empty() {
    let blank = RegistryClient::in_memory()
        .with_cache_path(CACHE_FILE_NAME, Err(RustmoteError::NoConfigDir));
    assert_eq!(blank.list_tags(REPO, Timestamp::now()), Lookup::Miss);
    assert_eq!(blank.cache_path.as_deref(), Some(CACHE_FILE_NAME));
}

#[test]
fn expired_entry_triggers_a_refresh() {
    // The file holds an entry of two hours ago, older than the default of one hour.
    let mut seed = CacheStore::default();
    let stale_at = ago(Timestamp::now(), 2 * 3600);
    seed.put_tag_list(REPO, strings(&["old"]), stale_at);

    let mut hub = Scripted::new(&["1.1.11"], "sha256:y");
    hub.file = Some(written_cache(&seed));
    let mut client = hub.client();

    let tags = hub.list_tags(&mut client, Timestamp::now());
    assert_eq!(
        hub.tag_calls, 1,
        "stale entry must not short-circuit the transport call"
    );
    assert_eq!(
        tags,
        ["1.1.11"],
        "expect the refreshed tags, not the stale ones"
    );

    // The file now holds the refreshed list.
    let reloaded = read_cache(hub.file.as_deref().unwrap());
    let entry = reloaded
        .tags
        .get(REPO)
        .expect("cache should have been rewritten");
    assert_eq!(entry.tags, ["1.1.11"]);
}

#[test]
fn digest_and_tag_list_caches_do_not_collide() {
    let mut hub = Scripted::new(&["1.1.11"], "sha256:zzz");
    let mut client = hub.client().with_ttl(TimeSpan::from_secs(3600));

    hub.list_tags(&mut client, Timestamp::now());
    assert_eq!(hub.resolve_digest(&mut client, Timestamp::now()), "sha256:zzz");
    hub.list_tags(&mut client, Timestamp::now());
    assert_eq!(hub.resolve_digest(&mut client, Timestamp::now()), "sha256:zzz");

    assert_eq!(
        hub.tag_calls, 1,
        "tags/list should have been cached after the first call"
    );
    assert_eq!(
        hub.digest_calls, 1,
        "manifest HEAD should have been cached after the first call"
    );
}

#[test]
fn failed_answers_are_not_kept() {
    let now = Timestamp::now();
    let mut client = RegistryClient::in_memory().with_cache_path("/c", Ok(CacheStore::default()));
    let failure = || Err(RustmoteError::RegistryApi("down".to_string()));
    let (answer, flush) = client.tags_listed("r/s", failure(), now);
    assert_eq!(answer, failure());
    assert_eq!(flush, None);
    assert_eq!(client.list_tags("r/s", now), Lookup::Miss);
    let failure = Err(RustmoteError::RegistryApi("down".to_string()));
    let (answer, flush) = client.digest_resolved("r/s", "t", failure, now);
    assert!(answer.is_err());
    assert_eq!(flush, None);
    assert_eq!(client.resolve_digest("r/s", "t", now), Lookup::Miss);
}

#[test]
fn requests_are_exact() {
    let e = Endpoints::with_endpoints("https://r.example//", "https://a.example/");
    assert_eq!(
        e.token_url("n/x"),
        "https://a.example/token?service=registry.docker.io&scope=repository:n/x:pull"
    );
    assert_eq!(e.tags_url("n/x"), "https://r.example/v2/n/x/tags/list");
    assert_eq!(
        e.manifest_url("n/x", "1"),
        "https://r.example/v2/n/x/manifests/1"
    );
    assert_eq!(
        accept_header(),
        "application/vnd.docker.distribution.manifest.v2+json, application/vnd.docker.distribution.manifest.list.v2+json, application/vnd.oci.image.manifest.v1+json, application/vnd.oci.image.index.v1+json"
    );
    let request = e.tags_request("n/x", HttpReply::Got("tok".to_string())).unwrap();
    assert_eq!(request.url, "https://r.example/v2/n/x/tags/list");
    assert_eq!(request.token, "tok");
    assert_eq!(request.accept, None);
    let request = e
        .manifest_request("n/x", "1", HttpReply::Got("tok".to_string()))
        .unwrap();
    assert_eq!(request.accept, Some(accept_header()));
    assert!(e
        .manifest_request("n/x", "1", HttpReply::Refused("401".to_string()))
        .is_err());
    assert_eq!(DEFAULT_REGISTRY_BASE, "https://registry-1.docker.io");
    assert_eq!(DEFAULT_AUTH_BASE, "https://auth.docker.io");
}

fn api(text: &str) -> RustmoteError {
    RustmoteError::RegistryApi(text.to_string())
}

#[test]
fn token_replies_are_read() {
    assert_eq!(
        token_from(HttpReply::Unsent("x".to_string())),
        Err(api("token fetch: x"))
    );
    assert_eq!(
        token_from(HttpReply::Refused("503".to_string())),
        Err(api("token fetch returned 503"))
    );
    assert_eq!(
        token_from(HttpReply::Undecoded("x".to_string())),
        Err(api("decoding token body: x"))
    );
    assert_eq!(
        token_from(HttpReply::Got("t".to_string())),
        Ok("t".to_string())
    );
}

#[test]
fn tag_replies_are_read() {
    assert_eq!(
        tags_from("r", HttpReply::Unsent("x".to_string())),
        Err(api("tags/list: x"))
    );
    assert_eq!(
        tags_from("r", HttpReply::Refused("404".to_string())),
        Err(api("tags/list r returned 404"))
    );
    assert_eq!(
        tags_from("r", HttpReply::Undecoded("x".to_string())),
        Err(api("decoding tags body: x"))
    );
    assert_eq!(
        tags_from("r", HttpReply::Got(strings(&["a"]))),
        Ok(strings(&["a"]))
    );
}

#[test]
fn manifest_replies_are_read() {
    assert_eq!(
        digest_from("r", "t", HttpReply::Unsent("x".to_string())),
        Err(api("manifest HEAD: x"))
    );
    assert_eq!(
        digest_from("r", "t", HttpReply::Refused("404".to_string())),
        Err(api("manifest HEAD r:t returned 404"))
    );
    assert_eq!(
        digest_from("r", "t", HttpReply::Got(None)),
        Err(api("manifest HEAD r:t missing Docker-Content-Digest header"))
    );
    assert_eq!(
        digest_from("r", "t", HttpReply::Got(Some("md5:1".to_string()))),
        Err(api("manifest digest 'md5:1' is not sha256-prefixed"))
    );
    assert_eq!(
        digest_from("r", "t", HttpReply::Got(Some("sha256:1".to_string()))),
        Ok("sha256:1".to_string())
    );
}

#[test]
fn cache_file_is_in_the_cache_directory() {
    assert_eq!(CACHE_FILE_NAME, "docker-hub-cache.toml");
    assert_eq!(CACHE_DIR_ENV, "RUSTMOTE_CACHE_DIR");
    assert_eq!(DEFAULT_TTL, 3600);
    assert_eq!(
        cache_path(PathStyle::Unix, Ok("/c".to_string())),
        Ok("/c/docker-hub-cache.toml".to_string())
    );
}

#[test]
fn cache_file_on_windows_is_behind_a_backslash() {
    assert_eq!(
        cache_path(PathStyle::Windows, Ok(r"C:\cache".to_string())),
        Ok(r"C:\cache\docker-hub-cache.toml".to_string())
    );
}
