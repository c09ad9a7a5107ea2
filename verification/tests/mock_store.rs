//! What only the in-memory store has, and what it does beyond the shared operations.

use pro_dynamo::container::Container;
use pro_dynamo::decode::{decode_item, decode_rows};
use pro_dynamo::mock::{check_put, check_write, list_under, MockDynamoDb};
use pro_dynamo::{
    AnyIndex, Error, GlobalSecondaryIndex, KeySchema, LocalSecondaryIndex, PrimaryIndex,
    SortKeyCondition,
};
use serde_json::Value;

fn payload(name: &str, count: u32) -> Value {
    let mut members = serde_json::Map::new();
    members.insert("name".to_string(), Value::from(name));
    members.insert("count".to_string(), Value::from(count));
    Value::Object(members)
}

fn object(members: Vec<(&str, Value)>) -> Value {
    let mut map = serde_json::Map::new();
    for (name, value) in members {
        map.insert(name.to_string(), value);
    }
    Value::Object(map)
}

fn schema() -> PrimaryIndex {
    PrimaryIndex {
        keys: KeySchema {
            pk_identifier: "pk".to_string(),
            sk_identifier: Some("sk".to_string()),
        },
    }
}

fn db() -> MockDynamoDb {
    MockDynamoDb::new(schema())
}

fn pk_sk(pk: &str, sk: &str) -> (String, Option<String>) {
    (pk.to_string(), Some(sk.to_string()))
}

fn gsi(sk: Option<&str>) -> AnyIndex {
    AnyIndex::from(GlobalSecondaryIndex {
        name: "GSI1".to_string(),
        keys: KeySchema {
            pk_identifier: "gsi1pk".to_string(),
            sk_identifier: sk.map(String::from),
        },
    })
}

fn lsi() -> AnyIndex {
    AnyIndex::from(LocalSecondaryIndex {
        name: "LSI1".to_string(),
        sk_identifier: "lsi1sk".to_string(),
    })
}

#[test]
fn insert_seeds_an_arbitrary_data_version() {
    let mut db = db();
    let payload = payload("balu", 3);
    let (pk, sk) = pk_sk("device#1", "METADATA");
    db.insert(pk.clone(), sk.clone(), "BaluCoreTable", 7, Ok(payload.clone()))
        .unwrap();

    let result = db.get_item(pk, sk, "BaluCoreTable").unwrap();

    assert_eq!(result, Some((7, &payload)));
}

#[test]
fn insert_replaces_existing_item() {
    let mut db = db();
    let (pk, sk) = pk_sk("device#1", "METADATA");
    db.insert(pk.clone(), sk.clone(), "BaluCoreTable", 1, Ok(payload("old", 1)))
        .unwrap();
    let updated = payload("new", 2);
    db.insert(pk.clone(), sk.clone(), "BaluCoreTable", 2, Ok(updated.clone()))
        .unwrap();

    let result = db.get_item(pk, sk, "BaluCoreTable").unwrap();

    assert_eq!(result, Some((2, &updated)));
}

/// Version `0` is what a record written before versioning existed reads back as. The other
/// operations can't produce that state, so seeding it is the only way to exercise such records.
#[test]
fn insert_can_seed_a_legacy_record_at_version_zero() {
    let mut db = db();
    let payload = payload("legacy", 1);
    let (pk, sk) = pk_sk("device#1", "METADATA");
    db.insert(pk.clone(), sk.clone(), "BaluCoreTable", 0, Ok(payload.clone()))
        .unwrap();

    let result = db.get_item(pk.clone(), sk.clone(), "BaluCoreTable").unwrap();
    assert_eq!(result, Some((0, &payload)));

    // A legacy record is unwritable through put_item, because put_item rejects 0 outright.
    let err = db
        .put_item(pk, sk, "BaluCoreTable", 0, Ok(payload.clone()))
        .unwrap_err();
    assert!(matches!(err, Error::InvalidRequest(_)), "{err:?}");
}

#[test]
fn insert_rejects_sort_key_not_matching_schema() {
    let mut db = db();
    let payload = payload("balu", 1);

    let err = db
        .insert("device#1".to_string(), None, "BaluCoreTable", 1, Ok(payload))
        .unwrap_err();

    assert!(
        matches!(&err, Error::InvalidRequest(message)
            if message.contains("PrimaryIndex has a sort key")),
        "{err:?}"
    );
}

#[test]
fn a_legacy_record_blocks_a_create_and_is_upgraded_by_an_overwrite() {
    let mut db = db();
    let (pk, sk) = pk_sk("device#1", "METADATA");
    db.insert(pk.clone(), sk.clone(), "T", 0, Ok(payload("legacy", 1)))
        .unwrap();

    let err = db
        .create_item(pk.clone(), sk.clone(), "T", Ok(payload("new", 2)))
        .unwrap_err();
    assert!(matches!(err, Error::AlreadyExists { .. }), "{err:?}");

    let version = db
        .put_item_unconditional(pk, sk, "T", Ok(payload("new", 2)))
        .unwrap();
    assert_eq!(version, 1);
}

#[test]
fn payloads_that_do_not_serialize_are_refused() {
    let mut db = db();
    let (pk, sk) = pk_sk("device#1", "METADATA");
    let expected = "Failed to serialize mock payload: key must be a string";
    let failed = || Err("key must be a string".to_string());

    let err = db.insert(pk.clone(), sk.clone(), "T", 1, failed()).unwrap_err();
    assert!(matches!(err, Error::Serialization(_)), "{err:?}");
    assert_eq!(err.to_string(), expected);
    let err = db.create_item(pk.clone(), sk.clone(), "T", failed()).unwrap_err();
    assert_eq!(err.to_string(), expected);
    let err = db.put_item(pk.clone(), sk.clone(), "T", 1, failed()).unwrap_err();
    assert_eq!(err.to_string(), expected);
    let err = db
        .put_item_unconditional(pk.clone(), sk.clone(), "T", failed())
        .unwrap_err();
    assert_eq!(err.to_string(), expected);

    assert_eq!(db.get_item(pk, sk, "T").unwrap(), None);
}

#[test]
fn an_expected_version_of_zero_is_refused_before_anything_else() {
    let mut db = db();
    let err = db
        .put_item("p".to_string(), None, "T", 0, Err("reason".to_string()))
        .unwrap_err();
    assert_eq!(
        err.to_string(),
        "put_item() does not accept version=0. Use put_item_unconditional()"
    );
}

#[test]
fn a_mismatched_sort_key_is_refused_before_the_payload() {
    let mut db = db();
    let err = db
        .create_item("p".to_string(), None, "T", Err("reason".to_string()))
        .unwrap_err();
    assert_eq!(
        err.to_string(),
        "PrimaryIndex has a sort key, but none was provided"
    );
}

#[test]
fn writes_are_checked_without_a_store() {
    let schema = schema();
    let sk = Some("METADATA".to_string());
    let failed = || Err("reason".to_string());

    assert_eq!(
        check_write(&schema, &sk, Ok(payload("a", 1))).unwrap(),
        payload("a", 1)
    );
    assert_eq!(
        check_write(&schema, &None, failed()).unwrap_err().to_string(),
        "PrimaryIndex has a sort key, but none was provided"
    );
    assert_eq!(
        check_write(&schema, &sk, failed()).unwrap_err().to_string(),
        "Failed to serialize mock payload: reason"
    );

    assert_eq!(
        check_put(&schema, &sk, 1, Ok(payload("a", 1))).unwrap(),
        payload("a", 1)
    );
    assert_eq!(
        check_put(&schema, &None, 0, failed()).unwrap_err().to_string(),
        "put_item() does not accept version=0. Use put_item_unconditional()"
    );
    assert_eq!(
        check_put(&schema, &None, 1, failed()).unwrap_err().to_string(),
        "PrimaryIndex has a sort key, but none was provided"
    );
}

#[test]
fn errors_carry_the_key() {
    let mut db = db();
    let (pk, sk) = pk_sk("device#1", "METADATA");
    db.create_item(pk.clone(), sk.clone(), "T", Ok(payload("a", 1)))
        .unwrap();
    let err = db
        .create_item(pk.clone(), sk.clone(), "T", Ok(payload("a", 1)))
        .unwrap_err();
    assert_eq!(
        err.to_string(),
        r#"Item already exists for pk=device#1, sk=Some("METADATA")"#
    );
}

/// A version at the limit is still deleted, created again and conflicted with.
#[test]
fn the_largest_version_is_only_advanced_never_compared() {
    let mut db = db();
    let (pk, sk) = pk_sk("device#1", "METADATA");
    db.insert(pk.clone(), sk.clone(), "T", u64::MAX - 1, Ok(payload("a", 1)))
        .unwrap();
    let version = db
        .put_item(pk.clone(), sk.clone(), "T", u64::MAX - 1, Ok(payload("b", 2)))
        .unwrap();
    assert_eq!(version, u64::MAX);
    let err = db
        .put_item(pk.clone(), sk.clone(), "T", 3, Ok(payload("c", 3)))
        .unwrap_err();
    assert!(matches!(err, Error::Conflict { .. }), "{err:?}");
    db.delete_item(pk.clone(), sk.clone(), "T").unwrap();
    let version = db.create_item(pk, sk, "T", Ok(payload("d", 4))).unwrap();
    assert_eq!(version, 1);
}

/// Deleting a key and creating it again starts over at version one, which makes a version that
/// was spent before valid again.
#[test]
fn deleting_starts_versions_over() {
    let mut db = db();
    let (pk, sk) = pk_sk("device#1", "METADATA");
    db.create_item(pk.clone(), sk.clone(), "T", Ok(payload("a", 1)))
        .unwrap();
    db.put_item(pk.clone(), sk.clone(), "T", 1, Ok(payload("a", 2)))
        .unwrap();
    db.delete_item(pk.clone(), sk.clone(), "T").unwrap();
    db.create_item(pk.clone(), sk.clone(), "T", Ok(payload("a", 3)))
        .unwrap();
    let version = db.put_item(pk, sk, "T", 1, Ok(payload("a", 4))).unwrap();
    assert_eq!(version, 2);
}

/// Read, then put what was read or create what was not there, until no race is lost.
#[test]
fn the_read_modify_write_loop_survives_a_lost_race() {
    let mut db = db();
    let (pk, sk) = pk_sk("device#1", "METADATA");
    let mut rounds = 0;
    loop {
        rounds += 1;
        let seen = db
            .get_item(pk.clone(), sk.clone(), "T")
            .unwrap()
            .map(|(version, value)| (version, value.clone()));
        if rounds == 1 {
            // Someone else creates the item between the read and the write.
            db.create_item(pk.clone(), sk.clone(), "T", Ok(payload("winner", 1)))
                .unwrap();
        }
        let result = match seen {
            Some((version, _)) => {
                db.put_item(pk.clone(), sk.clone(), "T", version, Ok(payload("mine", 2)))
            }
            None => db.create_item(pk.clone(), sk.clone(), "T", Ok(payload("mine", 1))),
        };
        match result {
            Ok(_) => break,
            Err(error) => assert!(error.is_lost_race(), "{error:?}"),
        }
    }
    assert_eq!(rounds, 2);
    assert_eq!(
        db.get_item(pk, sk, "T").unwrap(),
        Some((2, &payload("mine", 2)))
    );
}

#[test]
fn operations_leave_other_keys_and_tables_alone() {
    let mut db = db();
    let (pk, sk) = pk_sk("device#1", "METADATA");
    for table in ["A", "B"] {
        db.insert(pk.clone(), sk.clone(), table, 3, Ok(payload(table, 1)))
            .unwrap();
    }
    db.put_item(pk.clone(), sk.clone(), "A", 3, Ok(payload("changed", 2)))
        .unwrap();
    db.add_to_counter(pk.clone(), sk.clone(), "A", "next", 1).unwrap();
    assert_eq!(
        db.get_item(pk.clone(), sk.clone(), "B").unwrap(),
        Some((3, &payload("B", 1)))
    );
    db.delete_item(pk.clone(), sk.clone(), "A").unwrap();
    assert_eq!(
        db.get_item(pk, sk, "B").unwrap(),
        Some((3, &payload("B", 1)))
    );
}

// ---------------------------------------------------------------------------------------------
// Queries
// ---------------------------------------------------------------------------------------------

#[test]
fn a_query_without_a_condition_returns_the_partition_in_order() {
    let mut db = db();
    for sk in ["b", "", "ab", "é", "a", "B"] {
        let (pk, sk) = pk_sk("p", sk);
        let value = object(vec![("sk_was", Value::from(sk.clone().unwrap()))]);
        db.insert(pk, sk, "T", 1, Ok(value)).unwrap();
    }
    let rows = db
        .query_items(AnyIndex::from(schema()), "p".to_string(), None, "T")
        .unwrap();
    let order: Vec<&str> = rows
        .iter()
        .map(|(_, value)| value.get("sk_was").unwrap().as_str().unwrap())
        .collect();
    assert_eq!(order, vec!["", "B", "a", "ab", "b", "é"]);
}

/// An index lists an item without its sort key, before all others, unless a condition asks for
/// the sort key; an item without the partition key, or with one that is no string, is not listed.
#[test]
fn a_gsi_lists_items_by_their_attributes() {
    let mut db = db();
    let with_sk = object(vec![("gsi1pk", Value::from("g")), ("gsi1sk", Value::from("s"))]);
    let without_sk = object(vec![("gsi1pk", Value::from("g"))]);
    let numeric_sk = object(vec![("gsi1pk", Value::from("g")), ("gsi1sk", Value::from(7))]);
    let numeric_pk = object(vec![("gsi1pk", Value::from(1)), ("gsi1sk", Value::from("s"))]);
    let unlisted = object(vec![("gsi1sk", Value::from("s"))]);
    let no_object = Value::from("g");
    let items = vec![&with_sk, &without_sk, &numeric_pk, &unlisted, &no_object];
    for (i, item) in items.into_iter().enumerate() {
        db.insert(format!("p{i}"), Some("x".to_string()), "T", i as u64, Ok(item.clone()))
            .unwrap();
    }

    let rows = db.query_items(gsi(Some("gsi1sk")), "g".to_string(), None, "T").unwrap();
    assert_eq!(rows, vec![(1, &without_sk), (0, &with_sk)]);

    let rows = db
        .query_items(
            gsi(Some("gsi1sk")),
            "g".to_string(),
            Some(SortKeyCondition::Prefix(String::new())),
            "T",
        )
        .unwrap();
    assert_eq!(rows, vec![(0, &with_sk)]);

    // A sort key that is no string counts as none.
    db.insert("p1".to_string(), Some("x".to_string()), "T", 9, Ok(numeric_sk.clone()))
        .unwrap();
    let rows = db.query_items(gsi(Some("gsi1sk")), "g".to_string(), None, "T").unwrap();
    assert_eq!(rows, vec![(9, &numeric_sk), (0, &with_sk)]);
}

#[test]
fn an_lsi_orders_the_partition_by_its_own_sort_key() {
    let mut db = db();
    let late = object(vec![("lsi1sk", Value::from("2026-02"))]);
    let early = object(vec![("lsi1sk", Value::from("2026-01"))]);
    let none = object(vec![]);
    db.insert("p".to_string(), Some("1".to_string()), "T", 1, Ok(late.clone())).unwrap();
    db.insert("p".to_string(), Some("2".to_string()), "T", 2, Ok(early.clone())).unwrap();
    db.insert("p".to_string(), Some("3".to_string()), "T", 3, Ok(none.clone())).unwrap();

    let rows = db.query_items(lsi(), "p".to_string(), None, "T").unwrap();
    assert_eq!(rows, vec![(3, &none), (2, &early), (1, &late)]);

    let rows = db
        .query_items(
            lsi(),
            "p".to_string(),
            Some(SortKeyCondition::Between("2026-01".to_string(), "2026-01".to_string())),
            "T",
        )
        .unwrap();
    assert_eq!(rows, vec![(2, &early)]);
}

#[test]
fn items_with_the_same_sort_key_are_all_returned() {
    let mut db = db();
    for i in 0..3u64 {
        let value = object(vec![("gsi1pk", Value::from("g")), ("gsi1sk", Value::from("same"))]);
        db.insert(format!("p{i}"), Some("x".to_string()), "T", i, Ok(value)).unwrap();
    }
    let rows = db.query_items(gsi(Some("gsi1sk")), "g".to_string(), None, "T").unwrap();
    let mut versions: Vec<u64> = rows.iter().map(|(version, _)| *version).collect();
    versions.sort();
    assert_eq!(versions, vec![0, 1, 2]);
}

#[test]
fn refused_queries_say_why() {
    let db = db();
    let err = db
        .query_items(
            gsi(None),
            "g".to_string(),
            Some(SortKeyCondition::Equals("x".to_string())),
            "T",
        )
        .unwrap_err();
    assert_eq!(
        err.to_string(),
        "a sort key condition was provided but the index has no sort key"
    );
    let err = db
        .query_items(
            gsi(Some("gsi1sk")),
            "g".to_string(),
            Some(SortKeyCondition::Equals("x".to_string())),
            "T",
        )
        .unwrap_err();
    assert_eq!(
        err.to_string(),
        r#"Equals("x") is not yet implemented by MockDynamoDb"#
    );
}

#[test]
fn index_keys_come_from_the_key_or_from_the_payload() {
    let pk = "p".to_string();
    let sk = Some("s".to_string());
    let text = |s: &str| Some(s.to_string());

    assert_eq!(
        list_under(&AnyIndex::from(schema()), &pk, &sk, text("a"), text("b")),
        Some(("p".to_string(), text("s")))
    );
    assert_eq!(
        list_under(&lsi(), &pk, &sk, text("a"), text("b")),
        Some(("p".to_string(), text("b")))
    );
    assert_eq!(
        list_under(&gsi(Some("gsi1sk")), &pk, &sk, text("a"), text("b")),
        Some(("a".to_string(), text("b")))
    );
    assert_eq!(
        list_under(&gsi(None), &pk, &sk, text("a"), None),
        Some(("a".to_string(), None))
    );
    assert_eq!(list_under(&gsi(None), &pk, &sk, None, text("b")), None);
}

// ---------------------------------------------------------------------------------------------
// Counters
// ---------------------------------------------------------------------------------------------

#[test]
fn counting_creates_the_item_and_advances_its_version() {
    let mut db = db();
    let (pk, sk) = pk_sk("counter#1", "METADATA");
    for expected in 1..=3 {
        let count = db
            .add_to_counter(pk.clone(), sk.clone(), "T", "next", 1)
            .unwrap();
        assert_eq!(count, expected);
        assert_eq!(
            db.get_item(pk.clone(), sk.clone(), "T").unwrap(),
            Some((expected as u64, &object(vec![("next", Value::from(expected))])))
        );
    }
}

/// Callers that add one each are given every number once, whatever else is counted or written.
#[test]
fn a_counter_allocates_every_number() {
    let mut db = db();
    let (pk, sk) = pk_sk("counter#1", "METADATA");
    db.add_to_counter(pk.clone(), sk.clone(), "T", "next", 10).unwrap();
    for expected in 11..=15 {
        db.add_to_counter(pk.clone(), sk.clone(), "T", "other", 100).unwrap();
        db.put_item_unconditional("x".to_string(), sk.clone(), "T", Ok(payload("x", 1)))
            .unwrap();
        let number = db
            .add_to_counter(pk.clone(), sk.clone(), "T", "next", 1)
            .unwrap();
        assert_eq!(number, expected);
    }
    assert_eq!(db.count(&pk, &sk, "T", "next", 0).unwrap(), 15);
}

#[test]
fn a_count_can_be_looked_up_without_counting() {
    let mut db = db();
    let (pk, sk) = pk_sk("counter#1", "METADATA");
    assert_eq!(db.count(&pk, &sk, "T", "next", 5).unwrap(), 5);
    assert_eq!(db.get_item(pk.clone(), sk.clone(), "T").unwrap(), None);
    db.add_to_counter(pk.clone(), sk.clone(), "T", "next", 5).unwrap();
    assert_eq!(db.count(&pk, &sk, "T", "next", -2).unwrap(), 3);
    assert!(db.count(&pk, &sk, "T", "next", i64::MAX).is_err());
    assert!(db.count(&pk, &sk, "T", "data_version", 1).is_err());
    assert!(db.count(&pk, &None, "T", "next", 1).is_err());
}

/// A count that is refused is refused at any version, the largest too.
#[test]
fn a_refused_count_does_not_depend_on_the_version() {
    let mut db = db();
    let (pk, sk) = pk_sk("counter#1", "METADATA");
    db.insert(pk.clone(), sk.clone(), "T", u64::MAX, Ok(payload("a", 1)))
        .unwrap();
    let err = db
        .add_to_counter(pk.clone(), sk.clone(), "T", "name", 1)
        .unwrap_err();
    assert!(matches!(err, Error::Service(_)), "{err:?}");
    assert_eq!(
        db.get_item(pk, sk, "T").unwrap(),
        Some((u64::MAX, &payload("a", 1)))
    );
}

#[test]
fn counting_keeps_the_rest_of_the_payload() {
    let mut db = db();
    let (pk, sk) = pk_sk("counter#1", "METADATA");
    db.insert(pk.clone(), sk.clone(), "T", 0, Ok(payload("catalogue", 40)))
        .unwrap();
    let count = db
        .add_to_counter(pk.clone(), sk.clone(), "T", "count", 2)
        .unwrap();
    assert_eq!(count, 42);
    assert_eq!(
        db.get_item(pk.clone(), sk.clone(), "T").unwrap(),
        Some((1, &payload("catalogue", 42)))
    );
    let other = db.add_to_counter(pk.clone(), sk.clone(), "T", "other", -5).unwrap();
    assert_eq!(other, -5);
    let (version, value) = db.get_item(pk, sk, "T").unwrap().unwrap();
    assert_eq!(version, 2);
    assert_eq!(value.get("count"), Some(&Value::from(42)));
    assert_eq!(value.get("other"), Some(&Value::from(-5)));
    assert_eq!(value.get("name"), Some(&Value::from("catalogue")));
}

#[test]
fn counting_spends_the_version_that_was_read() {
    let mut db = db();
    let (pk, sk) = pk_sk("counter#1", "METADATA");
    db.create_item(pk.clone(), sk.clone(), "T", Ok(payload("a", 1)))
        .unwrap();
    db.add_to_counter(pk.clone(), sk.clone(), "T", "count", 1).unwrap();
    let err = db.put_item(pk, sk, "T", 1, Ok(payload("b", 2))).unwrap_err();
    assert!(matches!(err, Error::Conflict { .. }), "{err:?}");
}

#[test]
fn counting_refuses_reserved_attributes() {
    let mut db = db();
    let (pk, sk) = pk_sk("counter#1", "METADATA");
    for attribute in ["pk", "sk", "data_version"] {
        let err = db
            .add_to_counter(pk.clone(), sk.clone(), "T", attribute, 1)
            .unwrap_err();
        assert!(matches!(err, Error::InvalidRequest(_)), "{err:?}");
    }
    assert_eq!(db.get_item(pk, sk, "T").unwrap(), None);
}

#[test]
fn counting_refuses_what_is_no_integer() {
    let mut db = db();
    let (pk, sk) = pk_sk("counter#1", "METADATA");
    let stored = payload("a", 1);
    db.insert(pk.clone(), sk.clone(), "T", 1, Ok(stored.clone())).unwrap();
    let err = db
        .add_to_counter(pk.clone(), sk.clone(), "T", "name", 1)
        .unwrap_err();
    assert!(matches!(err, Error::Service(_)), "{err:?}");
    assert_eq!(
        err.to_string(),
        r#"mock item for pk=counter#1 holds no integer in "name""#
    );
    assert_eq!(db.get_item(pk.clone(), sk.clone(), "T").unwrap(), Some((1, &stored)));

    // A payload that is no object has no attributes to count in.
    db.insert(pk.clone(), sk.clone(), "T", 1, Ok(Value::from(3))).unwrap();
    let err = db.add_to_counter(pk, sk, "T", "next", 1).unwrap_err();
    assert!(matches!(err, Error::Service(_)), "{err:?}");
}

#[test]
fn counting_refuses_to_overflow() {
    let mut db = db();
    let (pk, sk) = pk_sk("counter#1", "METADATA");
    let top = db
        .add_to_counter(pk.clone(), sk.clone(), "T", "next", i64::MAX)
        .unwrap();
    assert_eq!(top, i64::MAX);
    let err = db
        .add_to_counter(pk.clone(), sk.clone(), "T", "next", 1)
        .unwrap_err();
    assert!(matches!(err, Error::Serialization(_)), "{err:?}");
    assert_eq!(
        err.to_string(),
        r#"Counter "next" for pk=counter#1 is not an i64 after adding 1"#
    );
    let bottom = db
        .add_to_counter(pk.clone(), sk.clone(), "T", "next", i64::MIN)
        .unwrap();
    assert_eq!(bottom, -1);
    let err = db.add_to_counter(pk, sk, "T", "next", i64::MIN).unwrap_err();
    assert_eq!(
        err.to_string(),
        r#"Counter "next" for pk=counter#1 is not an i64 after adding -9223372036854775808"#
    );
}

// ---------------------------------------------------------------------------------------------
// Deserializing what was stored
// ---------------------------------------------------------------------------------------------

#[test]
fn items_that_do_not_deserialize_name_their_key() {
    let sk = Some("METADATA".to_string());
    assert_eq!(decode_item::<u32>("mock item", "p", &sk, None).unwrap(), None);
    assert_eq!(
        decode_item("mock item", "p", &sk, Some(Ok(Container::new(3, 42)))).unwrap(),
        Some((3, 42))
    );
    let err = decode_item::<u32>("mock item", "p", &sk, Some(Err("missing field".to_string())))
        .unwrap_err();
    assert!(matches!(err, Error::Serialization(_)), "{err:?}");
    assert_eq!(
        err.to_string(),
        r#"Failed to deserialize mock item for pk=p, sk=Some("METADATA"): missing field"#
    );
}

#[test]
fn a_query_fails_with_its_first_row_that_does_not_deserialize() {
    let rows = vec![Ok(Container::new(1, 'a')), Ok(Container::new(2, 'b'))];
    assert_eq!(
        decode_rows("mock item", "p", rows).unwrap(),
        vec![(1, 'a'), (2, 'b')]
    );
    let rows = vec![
        Ok(Container::new(1, 'a')),
        Err("first".to_string()),
        Err("second".to_string()),
    ];
    assert_eq!(
        decode_rows("mock item", "p", rows).unwrap_err().to_string(),
        "Failed to deserialize mock item for pk=p: first"
    );
}
