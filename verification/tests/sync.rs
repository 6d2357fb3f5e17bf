use registry_core::index::{archive_key, index_key, shard_dir, sync_index_files, ChangedFile, Opts};
use registry_core::ratelimit::{check_rate_limit, Bucket, BucketConfig, LimitedAction};
use registry_core::store::BlobStore;
use registry_core::strutil::{canon_crate_name, lower_str, u64_to_dec};
use registry_core::wire::{split_body, WireError};

fn body(json: &[u8], tarball: &[u8]) -> Vec<u8> {
    let mut b = Vec::new();
    b.extend_from_slice(&(json.len() as u32).to_le_bytes());
    b.extend_from_slice(json);
    b.extend_from_slice(&(tarball.len() as u32).to_le_bytes());
    b.extend_from_slice(tarball);
    b
}

#[test]
fn split_body_round_trip() {
    let b = body(b"{\"name\":\"foo\"}", b"tar bytes");
    let (json, tarball) = split_body(&b).unwrap();
    assert_eq!(json, b"{\"name\":\"foo\"}");
    assert_eq!(tarball, b"tar bytes");
}

#[test]
fn split_body_rejects_truncation() {
    assert_eq!(split_body(&[1, 2]), Err(WireError::InvalidMetadataLength));
    // Declared metadata length overruns the payload.
    let mut b = Vec::new();
    b.extend_from_slice(&100u32.to_le_bytes());
    b.extend_from_slice(b"short");
    let err = split_body(&b).unwrap_err();
    assert_eq!(err, WireError::MetadataLengthOverrun { declared: 100 });
    assert_eq!(
        err.message(),
        "invalid metadata length for remaining payload: 100"
    );
    // The metadata fits, the archive length prefix is missing.
    let mut b = Vec::new();
    b.extend_from_slice(&2u32.to_le_bytes());
    b.extend_from_slice(b"{}");
    assert_eq!(split_body(&b), Err(WireError::InvalidTarballLength));
    // The declared archive length overruns the payload.
    let mut b = Vec::new();
    b.extend_from_slice(&0u32.to_le_bytes());
    b.extend_from_slice(&9u32.to_le_bytes());
    b.extend_from_slice(b"tiny");
    let err = split_body(&b).unwrap_err();
    assert_eq!(err, WireError::TarballLengthOverrun { declared: 9 });
    assert_eq!(err.message(), "invalid tarball length for remaining payload: 9");
}

#[test]
fn canonical_names_collide_on_case_and_punctuation() {
    assert_eq!(canon_crate_name("Foo-Bar"), "foo_bar");
    assert_eq!(canon_crate_name("foo_bar"), "foo_bar");
    assert_eq!(canon_crate_name("SERDE"), "serde");
    assert_eq!(lower_str("github:Test-Org:Core"), "github:test-org:core");
    assert_eq!(u64_to_dec(0), "0");
    assert_eq!(u64_to_dec(5242880), "5242880");
}

#[test]
fn sharded_index_keys() {
    assert_eq!(shard_dir("a"), "1");
    assert_eq!(shard_dir("ab"), "2");
    assert_eq!(shard_dir("abc"), "3/a");
    assert_eq!(shard_dir("serde"), "se/rd");
    assert_eq!(index_key("foo_whitelist"), "index/fo/o_/foo_whitelist");
    assert_eq!(index_key("Foo-Bar"), "index/fo/o_/Foo-Bar");
    assert_eq!(index_key("a"), "index/1/a");
    assert_eq!(archive_key("foo", "1.1.0"), "foo/foo-1.1.0.archive");
}

#[test]
fn store_put_replaces() {
    let mut store = BlobStore::new();
    store.put(String::from("k"), vec![1]);
    store.put(String::from("k"), vec![2]);
    store.put(String::from("other"), vec![3]);
    assert_eq!(store.keys(), vec!["k", "other"]);
    assert_eq!(store.get("k"), Some(&vec![2u8]));
    assert_eq!(store.get("missing"), None);
}

#[test]
fn incremental_sync_with_no_changes_uploads_nothing() {
    let mut store = BlobStore::new();
    store.put(String::from("index/3/f/foo"), vec![1, 2]);
    let report = sync_index_files(&mut store, &Vec::new(), "abc123");
    assert_eq!(report.checkpoint, "abc123");
    assert!(report.skipped.is_empty());
    assert_eq!(store.keys(), vec!["index/3/f/foo"]);
    assert_eq!(store.get("index/3/f/foo"), Some(&vec![1u8, 2u8]));
}

#[test]
fn sync_uploads_changed_files_and_skips_missing() {
    let mut store = BlobStore::new();
    let files = vec![
        ChangedFile { crate_name: String::from("foo"), contents: Some(b"line1\n".to_vec()) },
        ChangedFile { crate_name: String::from("gone"), contents: None },
        ChangedFile { crate_name: String::from("serde"), contents: Some(b"line2\n".to_vec()) },
    ];
    let report = sync_index_files(&mut store, &files, "head9");
    assert_eq!(report.checkpoint, "head9");
    assert_eq!(report.skipped, vec!["gone"]);
    assert_eq!(store.keys(), vec!["index/3/f/foo", "index/se/rd/serde"]);
    // A second run over the same files is idempotent.
    let report = sync_index_files(&mut store, &files, "head9");
    assert_eq!(report.checkpoint, "head9");
    assert_eq!(store.keys(), vec!["index/3/f/foo", "index/se/rd/serde"]);
}

#[test]
fn incremental_opts_carry_the_checkpoint() {
    let opts = Opts { incremental_commit: Some(String::from("abc123")) };
    assert_eq!(opts.incremental_commit.as_deref(), Some("abc123"));
    let full = Opts { incremental_commit: None };
    assert!(full.incremental_commit.is_none());
}

#[test]
fn rate_limit_bucket_refills_continuously() {
    let cfg = BucketConfig { refill_interval_secs: 10, burst: 2 };
    let mut buckets: Vec<Bucket> = Vec::new();
    // A fresh bucket starts full: two tokens at burst 2.
    assert!(check_rate_limit(&mut buckets, cfg, 7, LimitedAction::PublishNew, 100).is_ok());
    assert!(check_rate_limit(&mut buckets, cfg, 7, LimitedAction::PublishNew, 100).is_ok());
    let retry = check_rate_limit(&mut buckets, cfg, 7, LimitedAction::PublishNew, 100).unwrap_err();
    assert_eq!(retry, 10);
    // The other action kind draws from its own bucket.
    assert!(check_rate_limit(&mut buckets, cfg, 7, LimitedAction::PublishUpdate, 100).is_ok());
    // One interval later one token has accrued.
    assert!(check_rate_limit(&mut buckets, cfg, 7, LimitedAction::PublishNew, 110).is_ok());
    assert!(check_rate_limit(&mut buckets, cfg, 7, LimitedAction::PublishNew, 110).is_err());
}
