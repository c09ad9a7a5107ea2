//! What the store promises of every operation, reached only through the operations themselves.

use pro_dynamo::mock::MockDynamoDb;
use pro_dynamo::{
    AnyIndex, Error, GlobalSecondaryIndex, KeySchema, LocalSecondaryIndex, PrimaryIndex,
    SortKeyCondition, INITIAL_DATA_VERSION,
};
use serde_json::Value;

/// A store, plus the tables a test is allowed to touch.
struct Fixture {
    db: MockDynamoDb,
    table: String,
    other_table: String,
}

fn setup(keys: KeySchema) -> Fixture {
    Fixture {
        db: MockDynamoDb::new(primary_index(keys)),
        table: "ConformanceTable".to_string(),
        other_table: "ConformanceOtherTable".to_string(),
    }
}

fn payload(name: &str, count: u32) -> Value {
    let mut members = serde_json::Map::new();
    members.insert("name".to_string(), Value::from(name));
    members.insert("count".to_string(), Value::from(count));
    Value::Object(members)
}

fn payload_with_gsi(gsi1pk: &str, gsi1sk: &str, name: &str) -> Value {
    let mut members = serde_json::Map::new();
    members.insert("gsi1pk".to_string(), Value::from(gsi1pk));
    members.insert("gsi1sk".to_string(), Value::from(gsi1sk));
    members.insert("name".to_string(), Value::from(name));
    Value::Object(members)
}

fn payload_with_lsi(lsi1sk: &str, name: &str) -> Value {
    let mut members = serde_json::Map::new();
    members.insert("lsi1sk".to_string(), Value::from(lsi1sk));
    members.insert("name".to_string(), Value::from(name));
    Value::Object(members)
}

/// A composite primary key. The attribute names are arbitrary.
fn composite_key() -> KeySchema {
    KeySchema {
        pk_identifier: "pk".to_string(),
        sk_identifier: Some("sk".to_string()),
    }
}

/// A simple primary key: partition key only, no sort key.
fn partition_only_key() -> KeySchema {
    KeySchema {
        pk_identifier: "pk".to_string(),
        sk_identifier: None,
    }
}

fn gsi1() -> GlobalSecondaryIndex {
    GlobalSecondaryIndex {
        name: "GSI1".to_string(),
        keys: KeySchema {
            pk_identifier: "gsi1pk".to_string(),
            sk_identifier: Some("gsi1sk".to_string()),
        },
    }
}

fn lsi1() -> LocalSecondaryIndex {
    LocalSecondaryIndex {
        name: "LSI1".to_string(),
        sk_identifier: "lsi1sk".to_string(),
    }
}

fn gsi_without_sort_key() -> GlobalSecondaryIndex {
    GlobalSecondaryIndex {
        name: "GSI2".to_string(),
        keys: KeySchema {
            pk_identifier: "gsi2pk".to_string(),
            sk_identifier: None,
        },
    }
}

fn primary_index(keys: KeySchema) -> PrimaryIndex {
    PrimaryIndex { keys }
}

fn key(pk: &str, sk: Option<&str>) -> (String, Option<String>) {
    (pk.to_string(), sk.map(String::from))
}

/// Writes `payload` under `(pk, sk)` and leaves it stored at `data_version == version`.
fn seed(
    db: &mut MockDynamoDb,
    pk: &str,
    sk: Option<&str>,
    table: &str,
    version: u64,
    payload: &Value,
) {
    assert!(version >= 1, "seed() cannot produce data_version {version}");

    let (pk, sk) = key(pk, sk);
    db.create_item(pk.clone(), sk.clone(), table, Ok(payload.clone()))
        .expect("seed: initial write failed");

    for current in 1..version {
        db.put_item(pk.clone(), sk.clone(), table, current, Ok(payload.clone()))
            .expect("seed: version bump failed");
    }
}

// ---------------------------------------------------------------------------------------------
// get_item
// ---------------------------------------------------------------------------------------------

#[test]
fn get_item_returns_stored_payload_with_version() {
    let mut f = setup(composite_key());
    let payload = payload("balu", 3);
    seed(&mut f.db, "device#1", Some("METADATA"), &f.table, 7, &payload);

    let (pk, sk) = key("device#1", Some("METADATA"));
    let result = f.db.get_item(pk, sk, &f.table).unwrap();

    assert_eq!(result, Some((7, &payload)));
}

#[test]
fn get_item_returns_none_for_missing_key() {
    let f = setup(composite_key());

    let (pk, sk) = key("device#missing", Some("METADATA"));
    let result = f.db.get_item(pk, sk, &f.table).unwrap();

    assert_eq!(result, None);
}

// ---------------------------------------------------------------------------------------------
// create_item
// ---------------------------------------------------------------------------------------------

#[test]
fn create_item_creates_item_at_version_one() {
    let mut f = setup(composite_key());
    let (pk, sk) = key("device#1", Some("METADATA"));
    let payload = payload("balu", 1);

    let version = f
        .db
        .create_item(pk.clone(), sk.clone(), &f.table, Ok(payload.clone()))
        .unwrap();

    assert_eq!(version, 1);
    let result = f.db.get_item(pk.clone(), sk.clone(), &f.table).unwrap();
    assert_eq!(result, Some((1, &payload)));

    // The returned version is a usable CAS token, so a caller can carry on without re-reading.
    let next = f
        .db
        .put_item(pk, sk, &f.table, version, Ok(payload.clone()))
        .unwrap();
    assert_eq!(next, 2);
}

#[test]
fn create_item_rejects_an_existing_item() {
    let mut f = setup(composite_key());
    let (pk, sk) = key("device#1", Some("METADATA"));
    let original = payload("original", 1);
    f.db.create_item(pk.clone(), sk.clone(), &f.table, Ok(original.clone()))
        .unwrap();

    let err = f
        .db
        .create_item(pk.clone(), sk.clone(), &f.table, Ok(payload("clobber", 99)))
        .unwrap_err();

    assert!(matches!(err, Error::AlreadyExists { .. }), "{err:?}");
    let result = f.db.get_item(pk, sk, &f.table).unwrap();
    assert_eq!(
        result,
        Some((1, &original)),
        "a refused create must leave the stored item untouched"
    );
}

/// The condition tests whether the item exists, not what version it holds, so an item that has
/// been updated well past version 1 still blocks a create.
#[test]
fn create_item_rejects_an_item_at_any_version() {
    let mut f = setup(composite_key());
    let (pk, sk) = key("device#1", Some("METADATA"));
    let original = payload("original", 1);
    seed(&mut f.db, "device#1", Some("METADATA"), &f.table, 5, &original);

    let err = f
        .db
        .create_item(pk.clone(), sk.clone(), &f.table, Ok(payload("clobber", 99)))
        .unwrap_err();

    assert!(matches!(err, Error::AlreadyExists { .. }), "{err:?}");
    let result = f.db.get_item(pk, sk, &f.table).unwrap();
    assert_eq!(result, Some((5, &original)));
}

/// A deleted key is absent again, so it can be recreated.
#[test]
fn create_item_succeeds_again_after_delete() {
    let mut f = setup(composite_key());
    let (pk, sk) = key("device#1", Some("METADATA"));
    let payload = payload("balu", 1);
    f.db.create_item(pk.clone(), sk.clone(), &f.table, Ok(payload.clone()))
        .unwrap();
    f.db.delete_item(pk.clone(), sk.clone(), &f.table).unwrap();

    let version = f.db.create_item(pk, sk, &f.table, Ok(payload)).unwrap();

    assert_eq!(version, 1);
}

// ---------------------------------------------------------------------------------------------
// put_item (optimistic concurrency control)
// ---------------------------------------------------------------------------------------------

#[test]
fn put_item_updates_when_version_matches() {
    let mut f = setup(composite_key());
    let (pk, sk) = key("device#1", Some("METADATA"));
    seed(
        &mut f.db,
        "device#1",
        Some("METADATA"),
        &f.table,
        5,
        &payload("old", 1),
    );
    let updated = payload("new", 2);

    let new_version = f
        .db
        .put_item(pk.clone(), sk.clone(), &f.table, 5, Ok(updated.clone()))
        .unwrap();

    assert_eq!(new_version, 6);
    let result = f.db.get_item(pk, sk, &f.table).unwrap();
    assert_eq!(result, Some((6, &updated)));
}

#[test]
fn put_item_rejects_stale_version() {
    let mut f = setup(composite_key());
    let (pk, sk) = key("device#1", Some("METADATA"));
    let original = payload("old", 1);
    seed(&mut f.db, "device#1", Some("METADATA"), &f.table, 5, &original);

    let err = f
        .db
        .put_item(pk.clone(), sk.clone(), &f.table, 4, Ok(payload("new", 2)))
        .unwrap_err();

    assert!(
        matches!(
            err,
            Error::Conflict {
                expected_version: 4,
                ..
            }
        ),
        "{err:?}"
    );
    assert_eq!(
        err.to_string(),
        r#"Optimistic concurrency conflict for pk=device#1, sk=Some("METADATA"): expected version 4"#
    );
    // The stored item must be left untouched after a rejected write.
    let result = f.db.get_item(pk, sk, &f.table).unwrap();
    assert_eq!(result, Some((5, &original)));
}

#[test]
fn put_item_rejects_expected_version_zero() {
    let mut f = setup(composite_key());
    let (pk, sk) = key("device#1", Some("METADATA"));
    let payload = payload("balu", 1);
    seed(&mut f.db, "device#1", Some("METADATA"), &f.table, 1, &payload);

    let err = f
        .db
        .put_item(pk, sk, &f.table, 0, Ok(payload.clone()))
        .unwrap_err();

    assert!(matches!(err, Error::InvalidRequest(_)), "{err:?}");
}

/// `put_item`'s condition compares an attribute of an existing item, so against a missing key it
/// always fails: there is no way to express "create, but only if absent" through this operation.
#[test]
fn put_item_cannot_create_a_missing_item() {
    let mut f = setup(composite_key());
    let (pk, sk) = key("device#missing", Some("METADATA"));

    let err = f
        .db
        .put_item(pk.clone(), sk.clone(), &f.table, 1, Ok(payload("balu", 1)))
        .unwrap_err();

    assert!(matches!(err, Error::Conflict { .. }), "{err:?}");
    let result = f.db.get_item(pk, sk, &f.table).unwrap();
    assert_eq!(result, None, "a rejected write must not create the item");
}

// ---------------------------------------------------------------------------------------------
// put_item_unconditional
// ---------------------------------------------------------------------------------------------

#[test]
fn put_item_unconditional_creates_item_with_version_one() {
    let mut f = setup(composite_key());
    let (pk, sk) = key("device#1", Some("METADATA"));
    let payload = payload("balu", 1);

    let version = f
        .db
        .put_item_unconditional(pk.clone(), sk.clone(), &f.table, Ok(payload.clone()))
        .unwrap();

    assert_eq!(version, INITIAL_DATA_VERSION);
    let result = f.db.get_item(pk, sk, &f.table).unwrap();
    assert_eq!(result, Some((1, &payload)));
}

#[test]
fn put_item_unconditional_overwrites_and_advances_version() {
    let mut f = setup(composite_key());
    let (pk, sk) = key("device#1", Some("METADATA"));
    seed(
        &mut f.db,
        "device#1",
        Some("METADATA"),
        &f.table,
        4,
        &payload("old", 1),
    );
    let updated = payload("new", 2);

    let version = f
        .db
        .put_item_unconditional(pk.clone(), sk.clone(), &f.table, Ok(updated.clone()))
        .unwrap();

    // The payload is replaced wholesale, but the version moves forward from what was stored
    // rather than being reset.
    assert_eq!(version, 5);
    let result = f.db.get_item(pk, sk, &f.table).unwrap();
    assert_eq!(result, Some((5, &updated)));
}

/// Repeated unconditional writes must keep climbing, never plateau or reset.
#[test]
fn repeated_unconditional_writes_keep_advancing_the_version() {
    let mut f = setup(composite_key());
    let (pk, sk) = key("device#1", Some("METADATA"));
    let payload = payload("balu", 1);

    for expected in 1..=4 {
        let version = f
            .db
            .put_item_unconditional(pk.clone(), sk.clone(), &f.table, Ok(payload.clone()))
            .unwrap();
        assert_eq!(version, expected);
    }

    let result = f.db.get_item(pk, sk, &f.table).unwrap();
    assert_eq!(result, Some((4, &payload)));
}

// ---------------------------------------------------------------------------------------------
// query_items
// ---------------------------------------------------------------------------------------------

#[test]
fn query_items_returns_matching_items_sorted_by_sort_key() {
    let mut f = setup(composite_key());
    let first = payload("first", 1);
    let second = payload("second", 2);
    // Written out of sort-key order to verify the result comes back sorted.
    seed(&mut f.db, "device#1", Some("EVENT#2"), &f.table, 4, &second);
    seed(&mut f.db, "device#1", Some("EVENT#1"), &f.table, 3, &first);

    let result = f
        .db
        .query_items(
            AnyIndex::from(primary_index(composite_key())),
            "device#1".to_string(),
            Some(SortKeyCondition::Prefix("EVENT#".to_string())),
            &f.table,
        )
        .unwrap();

    assert_eq!(result, vec![(3, &first), (4, &second)]);
}

#[test]
fn query_items_excludes_non_matching_keys() {
    let mut f = setup(composite_key());
    let event = payload("event", 1);
    let metadata = payload("metadata", 2);
    seed(&mut f.db, "device#1", Some("EVENT#1"), &f.table, 1, &event);
    // Different sort-key prefix, same partition.
    seed(&mut f.db, "device#1", Some("METADATA"), &f.table, 1, &metadata);
    // Matching sort-key prefix but a different partition.
    seed(&mut f.db, "device#2", Some("EVENT#1"), &f.table, 1, &event);
    // Matching keys but a different table.
    seed(&mut f.db, "device#1", Some("EVENT#1"), &f.other_table, 1, &event);

    let result = f
        .db
        .query_items(
            AnyIndex::from(primary_index(composite_key())),
            "device#1".to_string(),
            Some(SortKeyCondition::Prefix("EVENT#".to_string())),
            &f.table,
        )
        .unwrap();

    assert_eq!(result, vec![(1, &event)]);
}

#[test]
fn query_items_returns_empty_when_no_match() {
    let f = setup(composite_key());

    let result = f
        .db
        .query_items(
            AnyIndex::from(primary_index(composite_key())),
            "device#1".to_string(),
            Some(SortKeyCondition::Prefix("EVENT#".to_string())),
            &f.table,
        )
        .unwrap();

    assert!(result.is_empty());
}

#[test]
fn query_items_via_between_condition() {
    let mut f = setup(composite_key());
    let low = payload("low", 1);
    let mid = payload("mid", 2);
    let high = payload("high", 3);
    seed(&mut f.db, "device#1", Some("EVENT#1"), &f.table, 1, &low);
    seed(&mut f.db, "device#1", Some("EVENT#2"), &f.table, 1, &mid);
    seed(&mut f.db, "device#1", Some("EVENT#3"), &f.table, 1, &high);

    let result = f
        .db
        .query_items(
            AnyIndex::from(primary_index(composite_key())),
            "device#1".to_string(),
            Some(SortKeyCondition::Between(
                "EVENT#1".to_string(),
                "EVENT#2".to_string(),
            )),
            &f.table,
        )
        .unwrap();

    assert_eq!(result, vec![(1, &low), (1, &mid)]);
}

#[test]
fn query_items_via_gsi_uses_item_attributes() {
    let mut f = setup(composite_key());
    let matching = payload_with_gsi("team#a", "user#1", "matching");
    let other_team = payload_with_gsi("team#b", "user#1", "other team");
    let non_matching_sk = payload_with_gsi("team#a", "device#1", "non matching sk");
    seed(&mut f.db, "device#1", Some("METADATA"), &f.table, 1, &matching);
    seed(&mut f.db, "device#2", Some("METADATA"), &f.table, 1, &other_team);
    seed(&mut f.db, "device#3", Some("METADATA"), &f.table, 1, &non_matching_sk);

    let result = f
        .db
        .query_items(
            AnyIndex::from(gsi1()),
            "team#a".to_string(),
            Some(SortKeyCondition::Prefix("user#".to_string())),
            &f.table,
        )
        .unwrap();

    assert_eq!(result, vec![(1, &matching)]);
}

#[test]
fn query_items_via_lsi_shares_primary_partition_key() {
    let mut f = setup(composite_key());
    let matching = payload_with_lsi("2026-01-01", "matching");
    let other_partition = payload_with_lsi("2026-01-01", "other partition");
    // LSIs share the base table's partition key, so this item must be found by its primary-key
    // pk ("device#1"), not by any attribute inside the payload.
    seed(&mut f.db, "device#1", Some("METADATA"), &f.table, 1, &matching);
    seed(&mut f.db, "device#2", Some("METADATA"), &f.table, 1, &other_partition);

    let result = f
        .db
        .query_items(
            AnyIndex::from(lsi1()),
            "device#1".to_string(),
            Some(SortKeyCondition::Prefix("2026".to_string())),
            &f.table,
        )
        .unwrap();

    assert_eq!(result, vec![(1, &matching)]);
}

#[test]
fn query_items_rejects_sk_condition_when_index_has_no_sort_key() {
    let f = setup(composite_key());

    let err = f
        .db
        .query_items(
            AnyIndex::from(gsi_without_sort_key()),
            "device#1".to_string(),
            Some(SortKeyCondition::Prefix("EVENT#".to_string())),
            &f.table,
        )
        .unwrap_err();

    assert!(matches!(err, Error::InvalidRequest(_)), "{err:?}");
}

#[test]
fn query_items_rejects_unimplemented_sort_key_condition() {
    let f = setup(composite_key());

    let err = f
        .db
        .query_items(
            AnyIndex::from(primary_index(composite_key())),
            "device#1".to_string(),
            Some(SortKeyCondition::Equals("METADATA".to_string())),
            &f.table,
        )
        .unwrap_err();

    assert!(matches!(err, Error::Unsupported(_)), "{err:?}");
}

// ---------------------------------------------------------------------------------------------
// delete_item
// ---------------------------------------------------------------------------------------------

#[test]
fn delete_item_removes_existing_item() {
    let mut f = setup(composite_key());
    let (pk, sk) = key("device#1", Some("METADATA"));
    seed(
        &mut f.db,
        "device#1",
        Some("METADATA"),
        &f.table,
        1,
        &payload("balu", 1),
    );

    f.db.delete_item(pk.clone(), sk.clone(), &f.table).unwrap();

    let result = f.db.get_item(pk, sk, &f.table).unwrap();
    assert_eq!(result, None);
}

#[test]
fn delete_item_is_idempotent_for_missing_key() {
    let mut f = setup(composite_key());
    let (pk, sk) = key("device#missing", Some("METADATA"));

    // Deleting a key that was never written must succeed as a no-op.
    f.db.delete_item(pk, sk, &f.table).unwrap();
}

#[test]
fn delete_item_only_removes_targeted_key() {
    let mut f = setup(composite_key());
    let kept = payload("kept", 1);
    seed(&mut f.db, "device#1", Some("EVENT#1"), &f.table, 1, &kept);
    seed(
        &mut f.db,
        "device#1",
        Some("EVENT#2"),
        &f.table,
        1,
        &payload("gone", 2),
    );

    let (pk, sk) = key("device#1", Some("EVENT#2"));
    f.db.delete_item(pk, sk, &f.table).unwrap();

    let (pk, sk) = key("device#1", Some("EVENT#1"));
    let result = f.db.get_item(pk, sk, &f.table).unwrap();
    assert_eq!(result, Some((1, &kept)));
}

// ---------------------------------------------------------------------------------------------
// Key schema handling
// ---------------------------------------------------------------------------------------------

#[test]
fn partition_only_primary_key_round_trip() {
    let mut f = setup(partition_only_key());
    let first = payload("balu", 1);

    let version = f
        .db
        .create_item("device#1".to_string(), None, &f.table, Ok(first.clone()))
        .unwrap();
    assert_eq!(version, INITIAL_DATA_VERSION);

    let result = f.db.get_item("device#1".to_string(), None, &f.table).unwrap();
    assert_eq!(result, Some((1, &first)));

    let updated = payload("updated", 2);
    let new_version = f
        .db
        .put_item("device#1".to_string(), None, &f.table, 1, Ok(updated))
        .unwrap();
    assert_eq!(new_version, 2);

    f.db.delete_item("device#1".to_string(), None, &f.table)
        .unwrap();

    let result = f.db.get_item("device#1".to_string(), None, &f.table).unwrap();
    assert_eq!(result, None);
}

fn assert_missing(err: Error) {
    assert!(
        matches!(&err, Error::InvalidRequest(message)
            if message.contains("PrimaryIndex has a sort key, but none was provided")),
        "{err:?}"
    )
}

fn assert_unexpected(err: Error) {
    assert!(
        matches!(&err, Error::InvalidRequest(message)
            if message.contains("a sort key was provided, but PrimaryIndex has none")),
        "{err:?}"
    )
}

/// Every keyed operation must reject an `sk` argument that disagrees with the configured
/// `PrimaryIndex`, in both directions.
#[test]
fn operations_reject_sort_key_not_matching_schema() {
    let payload = payload("balu", 1);

    // Table has a sort key, caller omitted it.
    let mut f = setup(composite_key());
    let pk = "device#1".to_string();
    assert_missing(f.db.get_item(pk.clone(), None, &f.table).unwrap_err());
    assert_missing(
        f.db.create_item(pk.clone(), None, &f.table, Ok(payload.clone()))
            .unwrap_err(),
    );
    assert_missing(
        f.db.put_item_unconditional(pk.clone(), None, &f.table, Ok(payload.clone()))
            .unwrap_err(),
    );
    assert_missing(
        f.db.put_item(pk.clone(), None, &f.table, 1, Ok(payload.clone()))
            .unwrap_err(),
    );
    assert_missing(
        f.db.add_to_counter(pk.clone(), None, &f.table, "next", 1)
            .unwrap_err(),
    );
    assert_missing(f.db.delete_item(pk, None, &f.table).unwrap_err());

    // Table has no sort key, caller supplied one.
    let mut f = setup(partition_only_key());
    let (pk, sk) = key("device#1", Some("METADATA"));
    assert_unexpected(
        f.db.get_item(pk.clone(), sk.clone(), &f.table)
            .unwrap_err(),
    );
    assert_unexpected(
        f.db.create_item(pk.clone(), sk.clone(), &f.table, Ok(payload.clone()))
            .unwrap_err(),
    );
    assert_unexpected(
        f.db.put_item_unconditional(pk.clone(), sk.clone(), &f.table, Ok(payload.clone()))
            .unwrap_err(),
    );
    assert_unexpected(
        f.db.put_item(pk.clone(), sk.clone(), &f.table, 1, Ok(payload.clone()))
            .unwrap_err(),
    );
    assert_unexpected(
        f.db.add_to_counter(pk.clone(), sk.clone(), &f.table, "next", 1)
            .unwrap_err(),
    );
    assert_unexpected(f.db.delete_item(pk, sk, &f.table).unwrap_err());
}

/// Two callers both observe an item as absent and race to bootstrap it. The loser must be told,
/// and the winner's committed update must survive.
#[test]
fn concurrent_bootstrap_is_rejected_for_the_loser() {
    let mut f = setup(composite_key());
    let (pk, sk) = key("counter#catalogue", Some("METADATA"));

    // Steps 1 and 2: both actors observe the item as absent.
    let a_seen = f.db.get_item(pk.clone(), sk.clone(), &f.table).unwrap();
    let b_seen = f.db.get_item(pk.clone(), sk.clone(), &f.table).unwrap();
    assert_eq!(a_seen, None);
    assert_eq!(b_seen, None);

    // Step 3: actor A takes the `None` branch and bootstraps the item.
    let a_initial = payload("A", 1);
    let a_created = f
        .db
        .create_item(pk.clone(), sk.clone(), &f.table, Ok(a_initial))
        .unwrap();
    assert_eq!(a_created, 1);

    // Step 4: actor A commits an update on top of its own bootstrap.
    let a_updated = payload("A", 2);
    let a_version = f
        .db
        .put_item(pk.clone(), sk.clone(), &f.table, a_created, Ok(a_updated.clone()))
        .unwrap();
    assert_eq!(a_version, 2);

    // Step 5: actor B takes the `None` branch it decided on back at step 2. The item is no
    // longer absent, so the create is refused instead of silently landing.
    let err = f
        .db
        .create_item(pk.clone(), sk.clone(), &f.table, Ok(payload("B", 1)))
        .unwrap_err();
    assert!(matches!(err, Error::AlreadyExists { .. }), "{err:?}");

    // Actor A's committed update survives, and actor B knows to re-read and retry.
    let stored = f.db.get_item(pk, sk, &f.table).unwrap();
    assert_eq!(stored, Some((2, &a_updated)));
}

// ---------------------------------------------------------------------------------------------
// Version monotonicity
// ---------------------------------------------------------------------------------------------

/// A `data_version` that has already been spent must never become valid again.
#[test]
fn unconditional_write_does_not_revive_a_stale_version_token() {
    let mut f = setup(composite_key());
    let (pk, sk) = key("device#1", Some("METADATA"));
    let payload = payload("balu", 1);

    // A caller reads version 1 and holds on to it.
    seed(&mut f.db, "device#1", Some("METADATA"), &f.table, 1, &payload);
    let held_version = 1;

    // Someone else advances the item to version 2, spending that token.
    f.db.put_item(pk.clone(), sk.clone(), &f.table, held_version, Ok(payload.clone()))
        .unwrap();
    let err = f
        .db
        .put_item(pk.clone(), sk.clone(), &f.table, held_version, Ok(payload.clone()))
        .unwrap_err();
    assert!(matches!(err, Error::Conflict { .. }), "{err:?}");

    // An unconditional write advances the version rather than rewinding it...
    let after_unconditional = f
        .db
        .put_item_unconditional(pk.clone(), sk.clone(), &f.table, Ok(payload.clone()))
        .unwrap();
    assert_eq!(after_unconditional, 3);

    // ...so the spent token stays spent.
    let err = f
        .db
        .put_item(pk, sk, &f.table, held_version, Ok(payload.clone()))
        .unwrap_err();
    assert!(matches!(err, Error::Conflict { .. }), "{err:?}");
}
