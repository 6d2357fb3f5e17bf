use registry_core::archive::{ArchiveError, ManifestInfo};
use registry_core::deps::DependencyDeclaration;
use registry_core::index::archive_key;
use registry_core::publish::{PublishMetadata, PublishRequest};
use registry_core::ratelimit::BucketConfig;
use registry_core::registry::{Registry, RegistryConfig};
use registry_core::validate::{missing_metadata_error_message, valid_keyword, validate_url};

fn test_config(max_upload: u64, max_unpack: u64) -> RegistryConfig {
    RegistryConfig {
        max_upload_size: max_upload,
        max_unpack_size: max_unpack,
        new_version_rate_limit: None,
        publish_new_bucket: BucketConfig { refill_interval_secs: 1, burst: 1000 },
        publish_update_bucket: BucketConfig { refill_interval_secs: 1, burst: 1000 },
    }
}

fn manifest_ok() -> ManifestInfo {
    ManifestInfo {
        description: Some(String::from("description")),
        license: Some(String::from("MIT")),
        license_file: None,
        homepage: None,
        documentation: None,
        repository: None,
        keywords: Vec::new(),
        categories: Vec::new(),
        links: None,
        pkg_path_in_vcs: None,
    }
}

fn request(name: &str, vers: &str, user: u64) -> PublishRequest {
    PublishRequest {
        user_id: user,
        api_token_id: None,
        metadata: PublishMetadata {
            name: String::from(name),
            vers: String::from(vers),
            deps: Vec::new(),
            features: Vec::new(),
            readme: None,
            readme_file: None,
        },
        memberships: Vec::new(),
    }
}

#[test]
fn missing_metadata_error_message_test() {
    assert_eq!(missing_metadata_error_message(&["a"]), "missing or empty metadata fields: a. Please see https://doc.rust-lang.org/cargo/reference/manifest.html for how to upload metadata");
    assert_eq!(missing_metadata_error_message(&["a", "b"]), "missing or empty metadata fields: a, b. Please see https://doc.rust-lang.org/cargo/reference/manifest.html for how to upload metadata");
    assert_eq!(missing_metadata_error_message(&["a", "b", "c"]), "missing or empty metadata fields: a, b, c. Please see https://doc.rust-lang.org/cargo/reference/manifest.html for how to upload metadata");
}

#[test]
fn deny_relative_urls() {
    assert!(validate_url(Some("https:/example.com/home"), "homepage").is_err());
}

#[test]
fn valid_url_accepted() {
    assert!(validate_url(Some("https://example.com/home"), "homepage").is_ok());
    assert!(validate_url(None, "homepage").is_ok());
}

#[test]
fn prefixed_but_malformed_url_rejected() {
    let err = validate_url(Some("http://[bad"), "documentation").unwrap_err();
    assert_eq!(
        err.message(),
        "`documentation` is not a valid url: `http://[bad`"
    );
}

#[test]
fn first_publish_creates_one_version() {
    let mut r = Registry::new(test_config(5 * 1024 * 1024, 5 * 1024 * 1024));
    let out = r
        .publish(&request("foo", "1.1.0", 1), &vec![1, 2, 3], Ok(manifest_ok()), 100)
        .unwrap();
    assert_eq!(out.krate_name, "foo");
    assert_eq!(out.vers, "1.1.0");
    assert_eq!(r.packages.len(), 1);
    assert_eq!(r.versions.len(), 1);
    assert_eq!(r.packages[0].name, "foo");
    assert_eq!(r.versions[0].num, "1.1.0");
    assert_eq!(r.versions[0].license, Some(String::from("MIT")));
}

#[test]
fn publish_records_exact_checksum() {
    let mut r = Registry::new(test_config(1024, 1024));
    let tarball: Vec<u8> = b"abc".to_vec();
    r.publish(&request("foo", "1.0.0", 1), &tarball, Ok(manifest_ok()), 0)
        .unwrap();
    assert_eq!(
        r.versions[0].checksum,
        "ba7816bf8f01cfea414140de5dae2223b00361a396177a9cb410ff61f20015ad"
    );
}

#[test]
fn duplicate_version_rejected() {
    let mut r = Registry::new(test_config(1024, 1024));
    r.publish(&request("foo", "1.0.0", 1), &vec![0], Ok(manifest_ok()), 0)
        .unwrap();
    let err = r
        .publish(&request("foo", "1.0.0", 1), &vec![0], Ok(manifest_ok()), 1)
        .unwrap_err();
    assert_eq!(err.message(), "crate version `1.0.0` is already uploaded");
    assert_eq!(r.versions.len(), 1);
}

#[test]
fn tarball_bigger_than_max_upload_size() {
    let max_upload_size: u64 = 5 * 1024 * 1024;
    let mut r = Registry::new(test_config(max_upload_size, max_upload_size));
    let tarball = vec![b'a'; 6 * 1024 * 1024];
    let err = r
        .publish(&request("foo", "1.1.0", 1), &tarball, Ok(manifest_ok()), 0)
        .unwrap_err();
    assert_eq!(err.message(), format!("max upload size is: {max_upload_size}"));
    assert_eq!(r.packages.len(), 0);
}

#[test]
fn new_krate_gzip_bomb() {
    // A payload small on the wire that overruns the decompressed ceiling:
    // the external validator reports it malformed, and nothing is stored.
    let mut r = Registry::new(test_config(3000, 2000));
    let tarball = vec![0u8; 600];
    let err = r
        .publish(&request("foo", "1.1.0", 1), &tarball, Err(ArchiveError::Malformed), 0)
        .unwrap_err();
    assert_eq!(
        err.message(),
        "uploaded tarball is malformed or too large when decompressed"
    );
    assert_eq!(r.packages.len(), 0);
}

#[test]
fn new_krate_too_big() {
    let mut r = Registry::new(test_config(3000, 2000));
    let tarball = vec![b'a'; 2500];
    let err = r
        .publish(&request("foo_big", "1.0.0", 1), &tarball, Err(ArchiveError::Malformed), 0)
        .unwrap_err();
    assert_eq!(
        err.message(),
        "uploaded tarball is malformed or too large when decompressed"
    );
    assert_eq!(r.packages.len(), 0);
}

#[test]
fn new_krate_too_big_but_whitelisted() {
    let mut r = Registry::new(test_config(3000, 2000));
    r.publish(&request("foo_whitelist", "1.0.0", 1), &vec![0], Ok(manifest_ok()), 0)
        .unwrap();
    r.packages[0].max_upload_size = Some(2_000_000);
    let tarball = vec![b'a'; 5000];
    let out = r
        .publish(&request("foo_whitelist", "1.1.0", 1), &tarball, Ok(manifest_ok()), 10)
        .unwrap();

    let mut store = registry_core::store::BlobStore::new();
    store.put(archive_key(&out.krate_name, &out.vers), tarball);
    let files = vec![registry_core::index::ChangedFile {
        crate_name: String::from("foo_whitelist"),
        contents: Some(b"index line".to_vec()),
    }];
    registry_core::index::sync_index_files(&mut store, &files, "head");

    let expected_files = vec![
        "foo_whitelist/foo_whitelist-1.1.0.archive",
        "index/fo/o_/foo_whitelist",
    ];
    assert_eq!(store.keys(), expected_files);
}

#[test]
fn reserved_name_rejected() {
    let mut r = Registry::new(test_config(1024, 1024));
    r.reserved_names.push(String::from("Std"));
    let err = r
        .publish(&request("std", "1.0.0", 1), &vec![0], Ok(manifest_ok()), 0)
        .unwrap_err();
    assert_eq!(err.message(), "cannot upload a crate with a reserved name");
}

#[test]
fn case_drift_rejected() {
    let mut r = Registry::new(test_config(1024, 1024));
    r.publish(&request("Foo", "1.0.0", 1), &vec![0], Ok(manifest_ok()), 0)
        .unwrap();
    let err = r
        .publish(&request("foo", "1.1.0", 1), &vec![0], Ok(manifest_ok()), 1)
        .unwrap_err();
    assert_eq!(err.message(), "crate was previously named `Foo`");
}

#[test]
fn missing_fields_rejected() {
    let mut r = Registry::new(test_config(1024, 1024));
    let mut m = manifest_ok();
    m.description = None;
    m.license = None;
    let err = r
        .publish(&request("foo", "1.0.0", 1), &vec![0], Ok(m), 0)
        .unwrap_err();
    assert_eq!(err.message(), "missing or empty metadata fields: description, license. Please see https://doc.rust-lang.org/cargo/reference/manifest.html for how to upload metadata");
}

#[test]
fn license_file_substitutes_sentinel() {
    let mut r = Registry::new(test_config(1024, 1024));
    let mut m = manifest_ok();
    m.license = None;
    m.license_file = Some(String::from("LICENSE"));
    r.publish(&request("foo", "1.0.0", 1), &vec![0], Ok(m), 0).unwrap();
    assert_eq!(r.versions[0].license, Some(String::from("non-standard")));
}

#[test]
fn invalid_license_rejected() {
    let mut r = Registry::new(test_config(1024, 1024));
    let mut m = manifest_ok();
    m.license = Some(String::from("not-a-real-license-id"));
    let err = r
        .publish(&request("foo", "1.0.0", 1), &vec![0], Ok(m), 0)
        .unwrap_err();
    assert_eq!(err.message(), "unknown or invalid license expression; see http://opensource.org/licenses for options, and http://spdx.org/licenses/ for their identifiers");
}

#[test]
fn keyword_rules_enforced() {
    let mut r = Registry::new(test_config(1024, 1024));
    let mut m = manifest_ok();
    m.keywords = vec![
        String::from("a"),
        String::from("b"),
        String::from("c"),
        String::from("d"),
        String::from("e"),
        String::from("f"),
    ];
    let err = r
        .publish(&request("foo", "1.0.0", 1), &vec![0], Ok(m), 0)
        .unwrap_err();
    assert_eq!(err.message(), "expected at most 5 keywords per crate");

    let mut m = manifest_ok();
    m.keywords = vec![String::from("abcdefghijklmnopqrstu")];
    let err = r
        .publish(&request("foo", "1.0.0", 1), &vec![0], Ok(m), 0)
        .unwrap_err();
    assert_eq!(
        err.message(),
        "\"abcdefghijklmnopqrstu\" is an invalid keyword (keywords must have less than 20 characters)"
    );

    let mut m = manifest_ok();
    m.keywords = vec![String::from("?bad")];
    let err = r
        .publish(&request("foo", "1.0.0", 1), &vec![0], Ok(m), 0)
        .unwrap_err();
    assert_eq!(err.message(), "\"?bad\" is an invalid keyword");

    assert!(valid_keyword("serde-json2"));
    assert!(!valid_keyword(""));
    assert!(!valid_keyword("-leading"));
}

#[test]
fn category_rules_enforced() {
    let mut r = Registry::new(test_config(1024, 1024));
    r.known_categories.push(String::from("parsing"));
    let mut m = manifest_ok();
    m.categories = vec![
        String::from("a"),
        String::from("b"),
        String::from("c"),
        String::from("d"),
        String::from("e"),
        String::from("f"),
    ];
    let err = r
        .publish(&request("foo", "1.0.0", 1), &vec![0], Ok(m), 0)
        .unwrap_err();
    assert_eq!(err.message(), "expected at most 5 categories per crate");

    // Unknown categories are warnings, not a rejection; known ones stick.
    let mut m = manifest_ok();
    m.categories = vec![String::from("parsing"), String::from("made-up")];
    let out = r
        .publish(&request("foo", "1.0.0", 1), &vec![0], Ok(m), 0)
        .unwrap();
    assert_eq!(out.invalid_categories, vec![String::from("made-up")]);
    assert_eq!(r.packages[0].categories, vec![String::from("parsing")]);
}

#[test]
fn wildcard_dependency_rejected() {
    let mut r = Registry::new(test_config(1024, 1024));
    r.publish(&request("dep-target", "1.0.0", 1), &vec![0], Ok(manifest_ok()), 0)
        .unwrap();
    let mut req = request("foo", "1.0.0", 1);
    req.metadata.deps.push(DependencyDeclaration {
        name: String::from("dep-target"),
        version_req: String::from("*"),
        kind: None,
        optional: false,
        default_features: true,
        features: Vec::new(),
        target: None,
        explicit_name_in_toml: None,
        registry: None,
    });
    let err = r.publish(&req, &vec![0], Ok(manifest_ok()), 1).unwrap_err();
    assert_eq!(err.message(), "wildcard (`*`) dependency constraints are not allowed on crates.io. Crate with this problem: `dep-target` See https://doc.rust-lang.org/cargo/faq.html#can-libraries-use--as-a-version-for-their-dependencies for more information");

    req.metadata.deps[0].version_req = String::from("^1.0");
    r.publish(&req, &vec![0], Ok(manifest_ok()), 2).unwrap();
    assert_eq!(r.dependencies.len(), 1);
    assert_eq!(r.dependencies[0].req, "^1.0");
}

#[test]
fn unknown_dependency_rejected() {
    let mut r = Registry::new(test_config(1024, 1024));
    let mut req = request("foo", "1.0.0", 1);
    req.metadata.deps.push(DependencyDeclaration {
        name: String::from("nope"),
        version_req: String::from("1.0.0"),
        kind: None,
        optional: false,
        default_features: true,
        features: Vec::new(),
        target: None,
        explicit_name_in_toml: None,
        registry: None,
    });
    let err = r.publish(&req, &vec![0], Ok(manifest_ok()), 0).unwrap_err();
    assert_eq!(err.message(), "no known crate named `nope`");
    assert_eq!(r.packages.len(), 0);
}

#[test]
fn cross_registry_dependency_rejected() {
    let mut r = Registry::new(test_config(1024, 1024));
    let mut req = request("foo", "1.0.0", 1);
    req.metadata.deps.push(DependencyDeclaration {
        name: String::from("other"),
        version_req: String::from("1.0.0"),
        kind: None,
        optional: false,
        default_features: true,
        features: Vec::new(),
        target: None,
        explicit_name_in_toml: None,
        registry: Some(String::from("https://example.com/registry")),
    });
    let err = r.publish(&req, &vec![0], Ok(manifest_ok()), 0).unwrap_err();
    assert_eq!(err.message(), "Dependency `other` is hosted on another registry. Cross-registry dependencies are not permitted on crates.io.");
}

#[test]
fn daily_version_cap_enforced() {
    let mut cfg = test_config(1024, 1024);
    cfg.new_version_rate_limit = Some(2);
    let mut r = Registry::new(cfg);
    r.publish(&request("foo", "1.0.0", 1), &vec![0], Ok(manifest_ok()), 1000)
        .unwrap();
    r.publish(&request("foo", "1.0.1", 1), &vec![0], Ok(manifest_ok()), 2000)
        .unwrap();
    let err = r
        .publish(&request("foo", "1.0.2", 1), &vec![0], Ok(manifest_ok()), 3000)
        .unwrap_err();
    assert_eq!(
        err.message(),
        "You have published too many versions of this crate in the last 24 hours"
    );
    // A day later the window has passed.
    r.publish(&request("foo", "1.0.2", 1), &vec![0], Ok(manifest_ok()), 2000 + 86_400)
        .unwrap();
}

#[test]
fn rate_limiter_debits_and_refills() {
    let mut cfg = test_config(1024, 1024);
    cfg.publish_new_bucket = BucketConfig { refill_interval_secs: 60, burst: 1 };
    let mut r = Registry::new(cfg);
    r.publish(&request("one", "1.0.0", 1), &vec![0], Ok(manifest_ok()), 0)
        .unwrap();
    let err = r
        .publish(&request("two", "1.0.0", 1), &vec![0], Ok(manifest_ok()), 30)
        .unwrap_err();
    assert_eq!(err.message(), "too many publish requests; retry after 30 seconds");
    // After the refill interval a token is available again.
    r.publish(&request("two", "1.0.0", 1), &vec![0], Ok(manifest_ok()), 60)
        .unwrap();
}

#[test]
fn readme_and_sync_jobs_enqueued() {
    let mut r = Registry::new(test_config(1024, 1024));
    let mut req = request("foo", "1.0.0", 1);
    req.metadata.readme = Some(String::from("# Foo"));
    r.publish(&req, &vec![0], Ok(manifest_ok()), 0).unwrap();
    assert_eq!(r.jobs.len(), 2);
    match &r.jobs[0].kind {
        registry_core::registry::JobKind::RenderReadme { readme, readme_file, .. } => {
            assert_eq!(readme, "# Foo");
            assert_eq!(readme_file, "README.md");
        }
        _ => panic!("expected a readme job first"),
    }
    match &r.jobs[1].kind {
        registry_core::registry::JobKind::SyncToIndex { name } => assert_eq!(name, "foo"),
        _ => panic!("expected the sync job second"),
    }
}

#[test]
fn tarball_between_default_axum_limit_and_max_upload_size() {
    // An upload bigger than a typical request-body limit but under the
    // registry ceiling goes through.
    let max_upload_size: u64 = 5 * 1024 * 1024;
    let mut r = Registry::new(test_config(max_upload_size, max_upload_size));
    let tarball = vec![b'a'; 3 * 1024 * 1024];
    let out = r
        .publish(&request("foo", "1.1.0", 1), &tarball, Ok(manifest_ok()), 0)
        .unwrap();
    assert_eq!(out.krate_name, "foo");
    assert_eq!(out.vers, "1.1.0");

    let mut store = registry_core::store::BlobStore::new();
    store.put(archive_key(&out.krate_name, &out.vers), tarball);
    let files = vec![registry_core::index::ChangedFile {
        crate_name: String::from("foo"),
        contents: Some(b"index line".to_vec()),
    }];
    registry_core::index::sync_index_files(&mut store, &files, "head");
    assert_eq!(store.keys().len(), 2);
}
