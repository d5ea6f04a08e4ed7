use chrono::{DateTime, TimeZone, Utc};
use resy::remotes::aws::{Change, CompactS3Object, DiffStats, ListedObject, S3Object, Timestamp, S3};

fn create_test_s3_object(key: &str, etag: &str, size: i64, timestamp: i64) -> S3Object {
    S3Object {
        key: key.to_string(),
        etag: etag.to_string(),
        size,
        last_modified: Timestamp::from_timestamp(timestamp, 0),
    }
}

fn create_test_s3() -> S3 {
    S3::new(
        "test-bucket".to_string(),
        "test-key".to_string(),
        "test-secret".to_string(),
        "us-west-2".to_string(),
    )
}

fn utc(at: Timestamp) -> DateTime<Utc> {
    DateTime::from_timestamp(at.timestamp(), at.timestamp_subsec_nanos()).unwrap()
}

#[test]
fn test_s3_object_creation() {
    let obj = create_test_s3_object("test/file.txt", "etag123", 1024, 1609459200);

    assert_eq!(obj.key, "test/file.txt");
    assert_eq!(obj.etag, "etag123");
    assert_eq!(obj.size, 1024);
    assert_eq!(utc(obj.last_modified), Utc.timestamp_opt(1609459200, 0).unwrap());
}

#[test]
fn test_s3_struct_creation() {
    let s3 = create_test_s3();

    assert_eq!(s3.bucket, "test-bucket");
    assert_eq!(s3.region, "us-west-2");
    assert_eq!(s3.get_access_key_id(), "test-key");
    assert_eq!(s3.get_secret_access_key(), "test-secret");
}

#[test]
fn test_diff_stats_default() {
    let stats = DiffStats::default();

    assert_eq!(stats.added, 0);
    assert_eq!(stats.modified, 0);
    assert_eq!(stats.deleted, 0);
    assert_eq!(stats.unchanged, 0);
}

#[test]
fn test_change_enum_variants() {
    let obj1 = create_test_s3_object("test1", "etag1", 100, 1609459200);
    let obj2 = create_test_s3_object("test2", "etag2", 200, 1609459300);
    let obj3 = create_test_s3_object("test3", "etag3", 300, 1609459400);

    let added = Change::Added(obj1.clone());
    let modified = Change::Modified { old: obj1.clone(), new: obj2.clone() };
    let deleted = Change::Deleted(obj3.clone());

    match added {
        Change::Added(ref obj) => assert_eq!(obj.key, "test1"),
        _ => panic!("Expected Added variant"),
    }

    match modified {
        Change::Modified { ref old, ref new } => {
            assert_eq!(old.key, "test1");
            assert_eq!(new.key, "test2");
        }
        _ => panic!("Expected Modified variant"),
    }

    match deleted {
        Change::Deleted(ref obj) => assert_eq!(obj.key, "test3"),
        _ => panic!("Expected Deleted variant"),
    }
}

#[test]
fn test_compact_to_s3_object() {
    let s3 = create_test_s3();
    let compact = CompactS3Object {
        etag: "etag123".to_string(),
        size: 1024,
        last_modified: 1609459200,
    };

    let s3_obj = s3.compact_to_s3_object("test/file.txt", &compact);

    assert_eq!(s3_obj.key, "test/file.txt");
    assert_eq!(s3_obj.etag, "etag123");
    assert_eq!(s3_obj.size, 1024);
    assert_eq!(utc(s3_obj.last_modified), Utc.timestamp_opt(1609459200, 0).unwrap());
}

#[test]
fn test_s3_object_equality() {
    let obj1 = create_test_s3_object("test", "etag1", 100, 1609459200);
    let obj2 = create_test_s3_object("test", "etag1", 100, 1609459200);
    let obj3 = create_test_s3_object("test", "etag2", 100, 1609459200);

    assert_eq!(obj1, obj2);
    assert_ne!(obj1, obj3);
}

#[test]
fn test_change_equality() {
    let obj1 = create_test_s3_object("test1", "etag1", 100, 1609459200);
    let obj2 = create_test_s3_object("test2", "etag2", 200, 1609459300);

    let change1 = Change::Added(obj1.clone());
    let change2 = Change::Added(obj1.clone());
    let change3 = Change::Added(obj2.clone());

    assert_eq!(change1, change2);
    assert_ne!(change1, change3);
}

#[test]
fn test_s3_with_endpoint() {
    let s3 = S3::new_with_endpoint(
        "test-bucket".to_string(),
        "test-key".to_string(),
        "test-secret".to_string(),
        "us-west-2".to_string(),
        "http://localhost:4566".to_string(),
    );

    assert_eq!(s3.bucket, "test-bucket");
    assert_eq!(s3.region, "us-west-2");
    assert_eq!(s3.endpoint_url, Some("http://localhost:4566".to_string()));
    assert_eq!(s3.get_access_key_id(), "test-key");
    assert_eq!(s3.get_secret_access_key(), "test-secret");
}

#[test]
fn test_s3_without_endpoint() {
    let s3 = S3::new(
        "test-bucket".to_string(),
        "test-key".to_string(),
        "test-secret".to_string(),
        "us-west-2".to_string(),
    );

    assert_eq!(s3.bucket, "test-bucket");
    assert_eq!(s3.region, "us-west-2");
    assert_eq!(s3.endpoint_url, None);
    assert_eq!(s3.get_access_key_id(), "test-key");
    assert_eq!(s3.get_secret_access_key(), "test-secret");
}

#[test]
fn client_settings_carry_the_credentials() {
    let settings = S3::new_with_endpoint(
        "bucket".to_string(),
        "an-id".to_string(),
        "a-secret".to_string(),
        "eu-central-1".to_string(),
        "http://localhost:9000".to_string(),
    )
    .client_settings();

    assert_eq!(settings.credentials.access_key_id(), "an-id");
    assert_eq!(settings.credentials.secret_access_key(), "a-secret");
    assert_eq!(settings.credentials.session_token(), None);
    assert_eq!(settings.credentials.expiry(), None);
    assert!(format!("{:?}", settings.credentials).contains("resy"));
    assert_eq!(settings.region.as_ref(), "eu-central-1");
    assert_eq!(settings.endpoint_url, Some("http://localhost:9000".to_string()));

    assert_eq!(create_test_s3().client_settings().endpoint_url, None);
}

#[test]
fn zeroize_wipes_the_credentials_only() {
    let mut s3 = S3::new(
        "bucket".to_string(),
        "ab".to_string(),
        "p\u{e4}ss".to_string(),
        "us-east-1".to_string(),
    );
    s3.zeroize();

    assert_eq!(s3.get_access_key_id(), "\0\0");
    assert_eq!(s3.get_secret_access_key(), "\0\0\0\0\0");
    assert_eq!(s3.bucket, "bucket");
    assert_eq!(s3.region, "us-east-1");
}

#[test]
fn timestamps_out_of_range_are_the_epoch() {
    let first = -8_334_601_228_800i64;
    let last = 8_210_266_876_799i64;
    assert_eq!(DateTime::<Utc>::MIN_UTC.timestamp(), first);
    assert_eq!(DateTime::<Utc>::MAX_UTC.timestamp(), last);

    assert_eq!(Timestamp::from_timestamp(first, 0).timestamp(), first);
    assert_eq!(Timestamp::from_timestamp(last, 999_999_999).timestamp(), last);
    assert_eq!(Timestamp::from_timestamp(last, 999_999_999).timestamp_subsec_nanos(), 999_999_999);

    let epoch = Timestamp::from_timestamp(0, 0);
    assert_eq!(Timestamp::from_timestamp(first - 1, 0), epoch);
    assert_eq!(Timestamp::from_timestamp(last + 1, 0), epoch);
    assert_eq!(Timestamp::from_timestamp(i64::MAX, 0), epoch);
    assert_eq!(Timestamp::from_timestamp(i64::MIN, 0), epoch);
    assert_eq!(utc(epoch), DateTime::<Utc>::default());
}

#[test]
fn only_the_last_second_of_a_minute_has_a_leap_second() {
    let epoch = Timestamp::from_timestamp(0, 0);
    assert_eq!(Timestamp::from_timestamp(59, 1_999_999_999).timestamp_subsec_nanos(), 1_999_999_999);
    assert_eq!(Timestamp::from_timestamp(-1, 1_000_000_000).timestamp(), -1);
    assert_eq!(Timestamp::from_timestamp(59, 2_000_000_000), epoch);
    assert_eq!(Timestamp::from_timestamp(58, 1_000_000_000), epoch);
    assert_eq!(Timestamp::from_timestamp(58, 999_999_999).timestamp(), 58);
}

#[test]
fn sizes_beyond_the_signed_range_wrap() {
    let compact = CompactS3Object { etag: "e".to_string(), size: u64::MAX, last_modified: i64::MAX };
    let object = create_test_s3().compact_to_s3_object("k", &compact);

    assert_eq!(object.size, -1);
    assert_eq!(object.last_modified, Timestamp::from_timestamp(0, 0));

    let compact = CompactS3Object { etag: "e".to_string(), size: 1 << 63, last_modified: 7 };
    assert_eq!(create_test_s3().compact_to_s3_object("k", &compact).size, i64::MIN);
    let compact = CompactS3Object { etag: "e".to_string(), size: (1 << 63) - 1, last_modified: 7 };
    assert_eq!(create_test_s3().compact_to_s3_object("k", &compact).size, i64::MAX);
}

#[test]
fn a_remembered_object_reads_back_to_the_second() {
    let object = S3Object {
        key: "k".to_string(),
        etag: "e".to_string(),
        size: 12,
        last_modified: Timestamp::from_timestamp(1609459200, 250_000_000),
    };
    let row = object.to_row();
    assert_eq!(row.key, "k");
    assert_eq!(row.last_modified, 1609459200);

    let compact = CompactS3Object {
        etag: row.etag,
        size: row.size as u64,
        last_modified: row.last_modified,
    };
    let again = create_test_s3().compact_to_s3_object(&row.key, &compact);
    assert_eq!(again.size, object.size);
    assert_eq!(again.etag, object.etag);
    assert_eq!(again.last_modified, Timestamp::from_timestamp(1609459200, 0));
}

fn listed() -> ListedObject {
    ListedObject {
        key: Some("k".to_string()),
        etag: Some("e".to_string()),
        size: Some(5),
        last_modified: Some((1609459200, 500)),
    }
}

#[test]
fn only_complete_entries_are_objects() {
    let object = listed().into_object().unwrap();
    assert_eq!(object.key, "k");
    assert_eq!(object.etag, "e");
    assert_eq!(object.size, 5);
    assert_eq!(object.last_modified, Timestamp::from_timestamp(1609459200, 500));

    assert_eq!(ListedObject { key: None, ..listed() }.into_object(), None);
    assert_eq!(ListedObject { etag: None, ..listed() }.into_object(), None);
    assert_eq!(ListedObject { size: None, ..listed() }.into_object(), None);
    assert_eq!(ListedObject { last_modified: None, ..listed() }.into_object(), None);
}
