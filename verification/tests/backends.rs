//! The in-memory store and the requests to a real table agree where both decide.

use pro_dynamo::aws::guarded::{
    begin_create, begin_overwrite, begin_put, EncodeStep, WriteOutcome,
};
use pro_dynamo::aws::item::{AttributeValue, Item, Scalar};
use pro_dynamo::aws::reply::{counter_reply, version_reply, CounterReply, PutFailure};
use pro_dynamo::aws::request::{counter_request, guard, item_key, query_request, WriteCondition};
use pro_dynamo::mock::MockDynamoDb;
use pro_dynamo::{AnyIndex, GlobalSecondaryIndex, KeySchema, PrimaryIndex, SortKeyCondition};
use serde_json::Value;

fn schema(sk: Option<&str>) -> PrimaryIndex {
    PrimaryIndex {
        keys: KeySchema {
            pk_identifier: "pk".to_string(),
            sk_identifier: sk.map(String::from),
        },
    }
}

fn pk() -> String {
    "device#1".to_string()
}

fn empty() -> Result<Value, String> {
    Ok(Value::Object(serde_json::Map::new()))
}

#[test]
fn both_backends_reject_the_same_keys() {
    for schema_sk in [None, Some("sk")] {
        for sk in [None, Some("METADATA".to_string())] {
            let schema = schema(schema_sk);
            let db = MockDynamoDb::new(schema.clone());
            let mock = db
                .get_item(pk(), sk.clone(), "T")
                .map(|_| ())
                .map_err(|e| e.to_string());
            let aws = item_key(&schema, &pk(), &sk)
                .map(|_| ())
                .map_err(|e| e.to_string());
            assert_eq!(mock, aws);
            assert_eq!(mock.is_ok(), schema_sk.is_some() == sk.is_some());
        }
    }
}

#[test]
fn both_backends_land_at_the_same_versions() {
    let schema = schema(None);
    let mut db = MockDynamoDb::new(schema.clone());
    assert_eq!(
        db.create_item(pk(), None, "T", empty()).unwrap(),
        begin_create(&schema, pk(), None).unwrap().new_version()
    );
    assert_eq!(
        db.put_item(pk(), None, "T", 1, empty()).unwrap(),
        begin_put(&schema, pk(), None, 1).unwrap().new_version()
    );
    assert_eq!(
        db.put_item_unconditional(pk(), None, "T", empty()).unwrap(),
        begin_overwrite(&schema, pk(), None)
            .unwrap()
            .plan(Some(2))
            .new_version()
    );
    assert_eq!(
        db.put_item_unconditional("device#2".to_string(), None, "T", empty())
            .unwrap(),
        begin_overwrite(&schema, pk(), None)
            .unwrap()
            .plan(None)
            .new_version()
    );
}

/// Sends a write to a table that answers whether the guard `holds`.
fn run(step: EncodeStep<'_>, holds: bool) -> Result<u64, String> {
    let contents: Item<bool> = Item::new();
    let (_, sent) = step.request(Ok(contents)).unwrap();
    let reply = if holds {
        Ok(())
    } else {
        Err(PutFailure::ConditionalCheckFailed)
    };
    match sent.settle(reply) {
        WriteOutcome::Written(version) => Ok(version),
        WriteOutcome::Failed(error) => Err(error.to_string()),
        WriteOutcome::Retry(step) => panic!("{step:?}"),
    }
}

#[test]
fn both_backends_end_writes_alike() {
    let schema = schema(None);
    for stored in [None, Some(0), Some(1), Some(5)] {
        let store = || {
            let mut db = MockDynamoDb::new(schema.clone());
            if let Some(version) = stored {
                db.insert(pk(), None, "T", version, empty()).unwrap();
            }
            db
        };
        assert_eq!(
            store()
                .create_item(pk(), None, "T", empty())
                .map_err(|e| e.to_string()),
            run(begin_create(&schema, pk(), None).unwrap(), stored.is_none())
        );
        for expected in [1, 4, 5] {
            assert_eq!(
                store()
                    .put_item(pk(), None, "T", expected, empty())
                    .map_err(|e| e.to_string()),
                run(
                    begin_put(&schema, pk(), None, expected).unwrap(),
                    stored == Some(expected)
                )
            );
        }
        assert_eq!(
            store()
                .put_item(pk(), None, "T", u64::MAX, empty())
                .map_err(|e| e.to_string()),
            begin_put(&schema, pk(), None, u64::MAX)
                .map(|step| step.new_version())
                .map_err(|e| e.to_string())
        );
        assert_eq!(
            store()
                .put_item_unconditional(pk(), None, "T", empty())
                .map_err(|e| e.to_string()),
            run(
                begin_overwrite(&schema, pk(), None).unwrap().plan(stored),
                true
            )
        );
    }
}

#[test]
fn both_backends_refuse_the_same_counters() {
    let schema = schema(Some("sk"));
    let mut db = MockDynamoDb::new(schema.clone());
    for attribute in ["pk", "sk", "data_version", "next"] {
        for sk in [None, Some("METADATA".to_string())] {
            let mock = db
                .add_to_counter(pk(), sk.clone(), "T", attribute, 1)
                .map(|_| ())
                .map_err(|e| e.to_string());
            let aws = counter_request(&schema, &pk(), &sk, attribute, 1)
                .map(|_| ())
                .map_err(|e| e.to_string());
            assert_eq!(mock, aws);
        }
    }
}

#[test]
fn both_backends_refuse_the_same_queries() {
    let schema = schema(Some("sk"));
    let db = MockDynamoDb::new(schema.clone());
    let without_sk = AnyIndex::from(GlobalSecondaryIndex {
        name: "GSI2".to_string(),
        keys: KeySchema {
            pk_identifier: "gsi2pk".to_string(),
            sk_identifier: None,
        },
    });
    let conditions = [
        None,
        Some(SortKeyCondition::Prefix("x".to_string())),
        Some(SortKeyCondition::Between("x".to_string(), "y".to_string())),
        Some(SortKeyCondition::LessThan("x".to_string())),
    ];
    for index in [AnyIndex::from(schema.clone()), without_sk] {
        for condition in &conditions {
            let mock = db
                .query_items(index.clone(), pk(), condition.clone(), "T")
                .map(|_| ())
                .map_err(|e| e.to_string());
            let aws = query_request(&schema, &index, &pk(), condition)
                .map(|_| ())
                .map_err(|e| e.to_string().replace("AwsDynamoDb", "MockDynamoDb"));
            assert_eq!(mock, aws);
        }
    }
}

#[test]
fn numbers_that_are_sent_read_back() {
    for version in [1, 9, 10, 1234567890, u64::MAX] {
        let text = match &guard(&schema(None), WriteCondition::VersionIs(version)).values[0].1 {
            Scalar::N(text) => text.clone(),
            other => panic!("{other:?}"),
        };
        let mut item: Item<bool> = Item::new();
        item.insert(
            "data_version".to_string(),
            AttributeValue::Scalar(Scalar::N(text)),
        );
        assert_eq!(version_reply("1", Ok(Some(item))).unwrap(), Some(version));
    }
    for delta in [0, 5, -5, i64::MAX, i64::MIN] {
        let request = counter_request(&schema(None), "1", &None, "next", delta).unwrap();
        let mut attributes: Item<bool> = Item::new();
        attributes.insert(
            "next".to_string(),
            AttributeValue::Scalar(request.update.values[0].1.clone()),
        );
        let reply = Ok(CounterReply {
            attributes,
            shown: String::new(),
        });
        assert_eq!(counter_reply("1", &None, "next", reply).unwrap(), delta);
    }
}
