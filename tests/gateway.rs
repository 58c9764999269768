use std::collections::BTreeMap;

use rustdok::delete::{DeleteObjectsOp, MAX_KEYS_PER_DELETE};
use rustdok::error::{BackendFault, ErrorKind, S3Error};
use rustdok::listing::S3Object;
use rustdok::protocol::{Call, ListedEntry, ListingPage, Reply, Step};
use rustdok::requests::CreateBucketRequest;
use rustdok::service::S3Service;

/// A store held in memory that answers every call at once.
struct FakeStore {
    buckets: BTreeMap<String, BTreeMap<String, Vec<u8>>>,
    calls: Vec<Call>,
    fail_delete_object: bool,
}

fn not_found(what: &str) -> Reply {
    Reply::Failed(BackendFault { code: Some("NotFound".to_string()), message: format!("{} not found", what), not_found: true })
}

impl FakeStore {
    fn new() -> Self {
        FakeStore { buckets: BTreeMap::new(), calls: Vec::new(), fail_delete_object: false }
    }

    fn put(&mut self, bucket: &str, key: &str) {
        self.buckets.entry(bucket.to_string()).or_default().insert(key.to_string(), b"x".to_vec());
    }

    fn has(&self, bucket: &str, key: &str) -> bool {
        self.buckets.get(bucket).map_or(false, |b| b.contains_key(key))
    }

    fn perform(&mut self, call: Call) -> Reply {
        self.calls.push(call.clone());
        match call {
            Call::ListBuckets => Reply::Buckets(self.buckets.keys().map(|b| Some(b.clone())).collect()),
            Call::CreateBucket { bucket } => {
                if self.buckets.contains_key(&bucket) {
                    Reply::Failed(BackendFault {
                        code: Some("BucketAlreadyOwnedByYou".to_string()),
                        message: "owned".to_string(),
                        not_found: false,
                    })
                } else {
                    self.buckets.insert(bucket, BTreeMap::new());
                    Reply::Done
                }
            }
            Call::DeleteBucket { bucket } => match self.buckets.get(&bucket) {
                None => not_found(&bucket),
                Some(objects) if !objects.is_empty() => Reply::Failed(BackendFault {
                    code: Some("BucketNotEmpty".to_string()),
                    message: "The bucket you tried to delete is not empty".to_string(),
                    not_found: false,
                }),
                Some(_) => {
                    self.buckets.remove(&bucket);
                    Reply::Done
                }
            },
            Call::ListObjects { bucket, prefix, grouped } => {
                let Some(objects) = self.buckets.get(&bucket) else { return not_found(&bucket) };
                let mut common_prefixes: Vec<Option<String>> = Vec::new();
                let mut contents = Vec::new();
                for key in objects.keys().filter(|k| k.starts_with(&prefix)) {
                    let rest = &key[prefix.len()..];
                    match rest.find('/') {
                        Some(i) if grouped => {
                            let p = format!("{}{}", prefix, &rest[..=i]);
                            if !common_prefixes.contains(&Some(p.clone())) {
                                common_prefixes.push(Some(p));
                            }
                        }
                        _ => contents.push(ListedEntry { key: Some(key.clone()), size: Some(1), modified_secs: Some(0) }),
                    }
                }
                Reply::Listing(ListingPage { common_prefixes, contents })
            }
            Call::HeadObject { bucket, key } => {
                if self.has(&bucket, &key) { Reply::Done } else { not_found(&key) }
            }
            Call::GetObject { bucket, key } => match self.buckets.get(&bucket).and_then(|b| b.get(&key)) {
                Some(d) => Reply::Data(d.clone()),
                None => not_found(&key),
            },
            Call::PutObject { bucket, key, data } => match self.buckets.get_mut(&bucket) {
                Some(b) => {
                    b.insert(key, data);
                    Reply::Done
                }
                None => not_found(&bucket),
            },
            Call::DeleteObjects { bucket, keys } => match self.buckets.get_mut(&bucket) {
                Some(b) => {
                    for k in keys {
                        b.remove(&k);
                    }
                    Reply::Deleted { failed: Vec::new() }
                }
                None => not_found(&bucket),
            },
            Call::CopyObject { bucket, source, destination } => match self.buckets.get_mut(&bucket) {
                Some(b) => match b.get(&source).cloned() {
                    Some(d) => {
                        b.insert(destination, d);
                        Reply::Done
                    }
                    None => not_found(&source),
                },
                None => not_found(&bucket),
            },
            Call::DeleteObject { bucket, key } => {
                if self.fail_delete_object {
                    return Reply::Failed(BackendFault { code: None, message: "access denied".to_string(), not_found: false });
                }
                if let Some(b) = self.buckets.get_mut(&bucket) {
                    b.remove(&key);
                }
                Reply::Done
            }
        }
    }
}

fn err_of(step: Step) -> S3Error {
    match step {
        Step::Finish(Err(e)) => e,
        other => panic!("expected a failure, got {:?}", other),
    }
}

fn create(store: &mut FakeStore, name: &str) -> Result<(), S3Error> {
    let (mut op, mut step) = S3Service::create_bucket(name);
    loop {
        match step {
            Step::Send(call) => step = op.resume(store.perform(call)),
            Step::Finish(r) => return r,
        }
    }
}

fn delete_bucket(store: &mut FakeStore, name: &str) -> Result<(), S3Error> {
    let (mut op, mut step) = S3Service::delete_bucket(name);
    loop {
        match step {
            Step::Send(call) => step = op.resume(store.perform(call)),
            Step::Finish(r) => return r,
        }
    }
}

fn delete_keys(store: &mut FakeStore, bucket: &str, keys: &[&str]) -> (Result<(), S3Error>, DeleteObjectsOp) {
    let keys: Vec<String> = keys.iter().map(|k| k.to_string()).collect();
    let (mut op, mut step) = S3Service::delete_objects(&keys, bucket);
    loop {
        match step {
            Step::Send(call) => step = op.resume(store.perform(call)),
            Step::Finish(r) => return (r, op),
        }
    }
}

fn list(store: &mut FakeStore, bucket: &str, prefix: Option<&str>) -> Vec<S3Object> {
    let reply = store.perform(S3Service::list_objects(prefix, bucket));
    S3Service::objects_from_reply(bucket, prefix.unwrap_or(""), &reply).unwrap()
}

fn object_exists(store: &mut FakeStore, bucket: &str, key: &str) -> bool {
    let reply = store.perform(S3Service::check_object_exists(key, bucket));
    S3Service::exists_from_reply(reply).unwrap()
}

fn move_object(store: &mut FakeStore, bucket: &str, source: &str, destination: &str) -> Result<(), S3Error> {
    let (mut op, mut step) = S3Service::move_object(bucket, source, destination);
    loop {
        match step {
            Step::Send(call) => step = op.resume(store.perform(call)),
            Step::Finish(r) => return r,
        }
    }
}

fn names(objects: &[S3Object]) -> Vec<String> {
    objects.iter().map(|o| o.name.clone()).collect()
}

#[test]
fn valid_bucket_names_pass() {
    for name in ["abc", "my-bucket.logs", "a1b", "192.168.1.x", "1.2.3", "1.2.3.4.5", "1.2.3.256", &"a".repeat(63)] {
        assert!(S3Service::validate_bucket_name(name).is_ok(), "{}", name);
    }
}

#[test]
fn each_bucket_name_rule_is_reported() {
    let cases = [
        ("ab", "Bucket name must be between 3 and 63 characters long. Got 2 characters."),
        ("my_bucket", "Bucket name can only contain lowercase letters, numbers, periods (.), and hyphens (-)"),
        (".bucket", "Bucket name must begin with a letter or number"),
        ("bucket.", "Bucket name must end with a letter or number"),
        ("my..bucket", "Bucket name must not contain two adjacent periods"),
        ("192.168.1.1", "Bucket name must not be formatted as an IP address"),
        ("xn--bucket", "Bucket name must not start with the prefix 'xn--'"),
        ("bucket-s3alias", "Bucket name must not end with the suffix '-s3alias'"),
    ];
    for (name, message) in cases {
        assert_eq!(S3Service::validate_bucket_name(name), Err(message.to_string()), "{}", name);
    }
    let long = "a".repeat(64);
    assert_eq!(
        S3Service::validate_bucket_name(&long),
        Err("Bucket name must be between 3 and 63 characters long. Got 64 characters.".to_string())
    );
}

#[test]
fn ip_address_rule_needs_four_octets() {
    assert!(S3Service::validate_bucket_name("0.0.0.0").is_err());
    assert!(S3Service::validate_bucket_name("255.255.255.255").is_err());
    assert!(S3Service::validate_bucket_name("001.2.3.4").is_err());
    assert!(S3Service::validate_bucket_name("256.1.1.1").is_ok());
}

#[test]
fn second_create_of_a_bucket_conflicts() {
    let mut store = FakeStore::new();
    assert!(create(&mut store, "photos").is_ok());
    let e = create(&mut store, "photos").unwrap_err();
    assert_eq!(e.kind(), ErrorKind::AlreadyExists);
    assert_eq!(e.text(), "photos");
    assert_eq!(e.status_code(), 409);
}

#[test]
fn invalid_bucket_name_asks_nothing() {
    let mut store = FakeStore::new();
    let e = create(&mut store, "Bad").unwrap_err();
    assert_eq!(e.kind(), ErrorKind::Invalid);
    assert_eq!(e.status_code(), 400);
    assert!(store.calls.is_empty());
}

#[test]
fn empty_bucket_name_request_is_refused() {
    let request = CreateBucketRequest { name: String::new() };
    let (_, step) = request.start();
    let e = err_of(step);
    assert_eq!(e.kind(), ErrorKind::Invalid);
    assert_eq!(e.text(), "Bucket name cannot be empty");
}

#[test]
fn deleting_unlisted_bucket_is_not_found() {
    let mut store = FakeStore::new();
    create(&mut store, "kept").unwrap();
    let e = delete_bucket(&mut store, "missing").unwrap_err();
    assert_eq!(e.kind(), ErrorKind::NotFound);
    assert_eq!(e.status_code(), 404);
    assert!(!store.calls.iter().any(|c| matches!(c, Call::DeleteBucket { .. })));
}

#[test]
fn deleting_non_empty_bucket_is_not_empty() {
    let mut store = FakeStore::new();
    store.put("full", "a.txt");
    let e = delete_bucket(&mut store, "full").unwrap_err();
    assert_eq!(e.kind(), ErrorKind::NotEmpty);
    assert_eq!(e.message(), "'full' is not empty");
    store.buckets.get_mut("full").unwrap().clear();
    assert!(delete_bucket(&mut store, "full").is_ok());
    assert!(store.buckets.is_empty());
}

#[test]
fn listing_a_folder_returns_its_files_only() {
    let mut store = FakeStore::new();
    for k in ["a/b.txt", "a/c.txt", "d.txt"] {
        store.put("bkt", k);
    }
    let objects = list(&mut store, "bkt", Some("a/"));
    assert_eq!(names(&objects), vec!["a/b.txt", "a/c.txt"]);
    assert_eq!(objects[0].size, 1);
    assert_eq!(objects[0].last_modified.as_deref(), Some("1970-01-01T00:00:00+00:00"));
}

#[test]
fn folder_placeholder_is_hidden_inside_and_shown_from_parent() {
    let mut store = FakeStore::new();
    let reply = store.perform(Call::CreateBucket { bucket: "bkt".to_string() });
    assert!(matches!(reply, Reply::Done));
    let reply = store.perform(S3Service::create_folder("folder", "bkt"));
    assert!(S3Service::outcome_of("folder/", reply).is_ok());
    store.put("bkt", "folder/file.txt");
    assert_eq!(names(&list(&mut store, "bkt", Some("folder/"))), vec!["folder/file.txt"]);
    let top = list(&mut store, "bkt", None);
    assert_eq!(names(&top), vec!["folder/"]);
    assert_eq!(top[0].size, 0);
    assert!(top[0].last_modified.is_none());
}

#[test]
fn listing_puts_folders_before_files_in_page_order() {
    let page = ListingPage {
        common_prefixes: vec![Some("z/".to_string()), None, Some("a/".to_string())],
        contents: vec![
            ListedEntry { key: Some("p/".to_string()), size: Some(0), modified_secs: None },
            ListedEntry { key: Some("p/y".to_string()), size: Some(-4), modified_secs: Some(-10) },
            ListedEntry { key: Some("p/x".to_string()), size: Some(7), modified_secs: Some(86400) },
            ListedEntry { key: None, size: None, modified_secs: Some(i64::MAX) },
        ],
    };
    let objects = rustdok::listing::build_listing("p/", &page);
    assert_eq!(names(&objects), vec!["z/", "a/", "p/y", "p/x", ""]);
    assert_eq!(objects[2].size, 0);
    assert_eq!(objects[2].last_modified.as_deref(), Some("1970-01-01T00:00:00+00:00"));
    assert_eq!(objects[3].size, 7);
    assert_eq!(objects[3].last_modified.as_deref(), Some("1970-01-02T00:00:00+00:00"));
    assert!(objects[4].last_modified.is_none());
    let unprefixed = rustdok::listing::build_listing("", &page);
    assert_eq!(unprefixed.len(), 6);
}

#[test]
fn deleting_a_folder_empties_it() {
    let mut store = FakeStore::new();
    for k in ["docs/", "docs/a.txt", "docs/sub/", "docs/sub/b.txt", "other.txt"] {
        store.put("bkt", k);
    }
    let (r, op) = delete_keys(&mut store, "bkt", &["docs/"]);
    assert!(r.is_ok());
    assert!(op.failed_keys().is_empty());
    assert!(list(&mut store, "bkt", Some("docs/")).is_empty());
    assert_eq!(names(&list(&mut store, "bkt", None)), vec!["other.txt"]);
}

#[test]
fn deleting_one_plain_object_keeps_the_rest() {
    let mut store = FakeStore::new();
    store.put("bkt", "a.txt");
    store.put("bkt", "b.txt");
    let (mut op, mut step) = S3Service::delete_object("a.txt", "bkt");
    while let Step::Send(call) = step {
        step = op.resume(store.perform(call));
    }
    assert!(matches!(step, Step::Finish(Ok(()))));
    assert!(!store.has("bkt", "a.txt"));
    assert!(store.has("bkt", "b.txt"));
    assert_eq!(store.calls.len(), 1);
}

#[test]
fn many_keys_go_in_batches_of_at_most_a_thousand() {
    let mut store = FakeStore::new();
    let mut keys = Vec::new();
    for i in 0..2400 {
        keys.push(format!("k{}", i));
    }
    for k in &keys {
        store.put("bkt", k);
    }
    store.put("bkt", "dir/inner");
    keys.push("dir/".to_string());
    keys.push("k7".to_string());
    let refs: Vec<&str> = keys.iter().map(|k| k.as_str()).collect();
    let (r, _) = delete_keys(&mut store, "bkt", &refs);
    assert!(r.is_ok());
    let batches: Vec<Vec<String>> = store
        .calls
        .iter()
        .filter_map(|c| match c {
            Call::DeleteObjects { keys, .. } => Some(keys.clone()),
            _ => None,
        })
        .collect();
    assert_eq!(batches.iter().map(|b| b.len()).collect::<Vec<_>>(), vec![1000, 1000, 402]);
    assert_eq!(batches[0], keys[0..1000].to_vec());
    assert_eq!(batches[1], keys[1000..2000].to_vec());
    assert_eq!(batches[2][..401].to_vec(), keys[2000..2401].to_vec());
    assert_eq!(batches[2][401], "dir/inner");
    assert!(batches.iter().all(|b| b.len() <= MAX_KEYS_PER_DELETE));
    let mut attempted: Vec<String> = batches.concat();
    attempted.sort();
    let mut expected: Vec<String> = (0..2400).map(|i| format!("k{}", i)).collect();
    expected.push("dir/".to_string());
    expected.push("dir/inner".to_string());
    expected.sort();
    assert_eq!(attempted, expected);
    assert!(store.buckets["bkt"].is_empty());
}

#[test]
fn deleting_nothing_asks_nothing() {
    let mut store = FakeStore::new();
    let (r, _) = delete_keys(&mut store, "bkt", &[]);
    assert!(r.is_ok());
    assert!(store.calls.is_empty());
}

#[test]
fn failed_delete_request_stops_with_backend_error() {
    let keys = vec!["a".to_string()];
    let (mut op, step) = S3Service::delete_objects(&keys, "bkt");
    assert!(matches!(step, Step::Send(Call::DeleteObjects { .. })));
    let step = op.resume(Reply::Failed(BackendFault { code: None, message: "timeout".to_string(), not_found: false }));
    let e = err_of(step);
    assert_eq!(e.kind(), ErrorKind::Backend);
    assert_eq!(e.message(), "AWS S3 Error: timeout");
}

#[test]
fn per_key_delete_failures_are_kept_and_do_not_stop() {
    let keys = vec!["a".to_string(), "b".to_string()];
    let (mut op, _) = S3Service::delete_objects(&keys, "bkt");
    let step = op.resume(Reply::Deleted { failed: vec!["b".to_string()] });
    assert!(matches!(step, Step::Finish(Ok(()))));
    assert_eq!(op.failed_keys(), &vec!["b".to_string()]);
}

#[test]
fn move_of_missing_source_is_not_found_without_copy() {
    let mut store = FakeStore::new();
    store.put("bkt", "other");
    let e = move_object(&mut store, "bkt", "missing.txt", "dest.txt").unwrap_err();
    assert_eq!(e.kind(), ErrorKind::NotFound);
    assert_eq!(e.text(), "missing.txt");
    assert!(!store.calls.iter().any(|c| matches!(c, Call::CopyObject { .. })));
}

#[test]
fn move_onto_existing_destination_conflicts_without_copy() {
    let mut store = FakeStore::new();
    store.put("bkt", "src.txt");
    store.put("bkt", "dest.txt");
    let e = move_object(&mut store, "bkt", "src.txt", "dest.txt").unwrap_err();
    assert_eq!(e.kind(), ErrorKind::AlreadyExists);
    assert_eq!(e.text(), "dest.txt");
    assert!(!store.calls.iter().any(|c| matches!(c, Call::CopyObject { .. })));
}

#[test]
fn move_that_cannot_remove_source_is_reported_apart() {
    let mut store = FakeStore::new();
    store.put("bkt", "src.txt");
    store.fail_delete_object = true;
    let e = move_object(&mut store, "bkt", "src.txt", "dest.txt").unwrap_err();
    assert_eq!(e.kind(), ErrorKind::SourceNotRemoved);
    assert_eq!(e.message(), "File was copied but could not be deleted from source: access denied");
    assert!(store.has("bkt", "dest.txt"));
    assert!(store.has("bkt", "src.txt"));
}

#[test]
fn move_renames_object() {
    let mut store = FakeStore::new();
    store.put("bkt", "src.txt");
    assert!(move_object(&mut store, "bkt", "src.txt", "dest.txt").is_ok());
    assert!(store.has("bkt", "dest.txt"));
    assert!(!store.has("bkt", "src.txt"));
}

#[test]
fn object_exists_only_after_put() {
    let mut store = FakeStore::new();
    store.perform(Call::CreateBucket { bucket: "bkt".to_string() });
    assert!(!object_exists(&mut store, "bkt", "new.txt"));
    let reply = store.perform(S3Service::put_object("new.txt", b"hello".to_vec(), "bkt"));
    assert!(S3Service::outcome_of("new.txt", reply).is_ok());
    assert!(object_exists(&mut store, "bkt", "new.txt"));
    let reply = store.perform(S3Service::get_object("new.txt", "bkt"));
    assert_eq!(S3Service::data_from_reply("new.txt", reply).unwrap(), b"hello".to_vec());
}

#[test]
fn existence_probe_failure_is_backend_error() {
    let reply = Reply::Failed(BackendFault { code: Some("AccessDenied".to_string()), message: "denied".to_string(), not_found: false });
    let e = S3Service::exists_from_reply(reply).unwrap_err();
    assert_eq!(e.kind(), ErrorKind::Backend);
    assert_eq!(e.text(), "denied");
}

#[test]
fn upload_without_replace_refuses_taken_key() {
    let mut store = FakeStore::new();
    store.put("bkt", "a.txt");
    let (mut op, step) = S3Service::upload_object("bkt", "a.txt", b"new".to_vec(), false);
    let Step::Send(call) = step else { panic!("expected a call") };
    let e = err_of(op.resume(store.perform(call)));
    assert_eq!(e.kind(), ErrorKind::AlreadyExists);
    assert_eq!(store.buckets["bkt"]["a.txt"], b"x".to_vec());

    let (mut op, step) = S3Service::upload_object("bkt", "b.txt", b"new".to_vec(), false);
    let Step::Send(call) = step else { panic!("expected a call") };
    let Step::Send(call) = op.resume(store.perform(call)) else { panic!("expected a put") };
    assert!(matches!(op.resume(store.perform(call)), Step::Finish(Ok(()))));
    assert_eq!(store.buckets["bkt"]["b.txt"], b"new".to_vec());

    let (mut op, step) = S3Service::upload_object("bkt", "a.txt", b"new".to_vec(), true);
    let Step::Send(call) = step else { panic!("expected a call") };
    assert!(matches!(op.resume(store.perform(call)), Step::Finish(Ok(()))));
    assert_eq!(store.buckets["bkt"]["a.txt"], b"new".to_vec());
}

#[test]
fn failed_bucket_listing_is_classified() {
    let (mut op, _) = S3Service::create_bucket("photos");
    let step = op.resume(Reply::Failed(BackendFault { code: Some("NoSuchBucket".to_string()), message: "gone".to_string(), not_found: false }));
    let e = err_of(step);
    assert_eq!(e.kind(), ErrorKind::NotFound);
    assert_eq!(e.text(), "photos");

    let (mut op, _) = S3Service::delete_bucket("photos");
    let step = op.resume(Reply::Failed(BackendFault { code: None, message: "timeout".to_string(), not_found: false }));
    let e = err_of(step);
    assert_eq!(e.kind(), ErrorKind::Backend);
    assert_eq!(e.text(), "timeout");

    let reply = Reply::Failed(BackendFault { code: Some("AccessDenied".to_string()), message: "denied".to_string(), not_found: false });
    let e = S3Service::bucket_names(reply).unwrap_err();
    assert_eq!(e.kind(), ErrorKind::Backend);
    assert_eq!(e.text(), "denied");
}

#[test]
fn failed_source_probe_of_a_move_is_backend_error() {
    let (mut op, _) = S3Service::move_object("bkt", "src.txt", "dest.txt");
    let step = op.resume(Reply::Failed(BackendFault { code: Some("BucketNotEmpty".to_string()), message: "odd".to_string(), not_found: false }));
    let e = err_of(step);
    assert_eq!(e.kind(), ErrorKind::Backend);
    assert_eq!(e.status_code(), 500);
}

#[test]
fn successful_replies_never_fail_a_deletion() {
    let keys = vec!["a/".to_string(), "b".to_string()];
    let (mut op, step) = S3Service::delete_objects(&keys, "bkt");
    assert!(matches!(step, Step::Send(Call::ListObjects { .. })));
    let page = ListingPage { common_prefixes: Vec::new(), contents: Vec::new() };
    let step = op.resume(Reply::Listing(page));
    let Step::Send(Call::DeleteObjects { keys: batch, .. }) = step else { panic!("expected a batch") };
    assert_eq!(batch, vec!["a/".to_string(), "b".to_string()]);
    let step = op.resume(Reply::Deleted { failed: vec!["a/".to_string()] });
    assert!(matches!(step, Step::Finish(Ok(()))));
}
