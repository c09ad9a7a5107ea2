use pro_dynamo::aws::item::{AttributeValue, Item, Scalar};
use pro_dynamo::aws::request::{
    build_item, counter_request, guard, item_key, primary_key, project_version, query_request,
    Expression, WriteCondition,
};
use pro_dynamo::aws::AwsDynamoDb;
use pro_dynamo::{
    AnyIndex, Error, GlobalSecondaryIndex, KeySchema, LocalSecondaryIndex, PrimaryIndex,
    SortKeyCondition, DATA_VERSION_ATTRIBUTE,
};

fn schema() -> PrimaryIndex {
    PrimaryIndex {
        keys: KeySchema {
            pk_identifier: "device".to_string(),
            sk_identifier: Some("record".to_string()),
        },
    }
}

fn simple_schema() -> PrimaryIndex {
    PrimaryIndex {
        keys: KeySchema {
            pk_identifier: "device".to_string(),
            sk_identifier: None,
        },
    }
}

fn s(text: &str) -> Scalar {
    Scalar::S(text.to_string())
}

fn n(text: &str) -> Scalar {
    Scalar::N(text.to_string())
}

fn names(expression: &Expression) -> Vec<(&str, &str)> {
    expression
        .names
        .iter()
        .map(|(placeholder, name)| (placeholder.as_str(), name.as_str()))
        .collect()
}

fn values(expression: &Expression) -> Vec<(&str, Scalar)> {
    expression
        .values
        .iter()
        .map(|(placeholder, value)| (placeholder.as_str(), value.clone()))
        .collect()
}

fn assert_uses_what_it_declares(expression: &Expression) {
    for (placeholder, _) in &expression.names {
        assert!(expression.text.contains(placeholder.as_str()), "{expression:?}");
    }
    for (placeholder, _) in &expression.values {
        assert!(expression.text.contains(placeholder.as_str()), "{expression:?}");
    }
}

#[test]
fn versions_are_stored_under_data_version() {
    assert_eq!(DATA_VERSION_ATTRIBUTE, "data_version");
}

#[test]
fn an_adapter_holds_its_client_and_its_schema() {
    let db = AwsDynamoDb::from_client("client", schema());
    assert_eq!(*db.client(), "client");
    assert_eq!(*db.primary_index(), schema());
    assert_eq!(
        db.resolve_sk(&Some("x".to_string())).unwrap(),
        Some(("record", "x".to_string()))
    );
    assert!(db.resolve_sk(&None).is_err());
}

#[test]
fn keys_go_under_the_names_of_the_schema() {
    assert_eq!(
        item_key(&schema(), "1", &Some("METADATA".to_string())).unwrap(),
        vec![
            ("device".to_string(), s("1")),
            ("record".to_string(), s("METADATA"))
        ]
    );
    assert_eq!(
        item_key(&simple_schema(), "1", &None).unwrap(),
        vec![("device".to_string(), s("1"))]
    );
    assert_eq!(
        primary_key(&schema(), "1", &Some(("record", "x".to_string()))),
        vec![("device".to_string(), s("1")), ("record".to_string(), s("x"))]
    );
    assert_eq!(
        item_key(&schema(), "1", &None).unwrap_err().to_string(),
        "PrimaryIndex has a sort key, but none was provided"
    );
    assert_eq!(
        item_key(&simple_schema(), "1", &Some("x".to_string()))
            .unwrap_err()
            .to_string(),
        "a sort key was provided, but PrimaryIndex has none"
    );
}

#[test]
fn items_carry_their_key_and_their_contents() {
    let mut contents: Item<bool> = Item::new();
    contents.insert("data_version".to_string(), AttributeValue::Other(false));
    contents.insert("on".to_string(), AttributeValue::Other(true));
    contents.insert("device".to_string(), AttributeValue::Other(false));

    let sk_attr = Some(("record", "x".to_string()));
    let item = build_item(&schema(), "1", &sk_attr, 7, Ok(contents)).unwrap();

    assert_eq!(item.get("device"), Some(&AttributeValue::Scalar(s("1"))));
    assert_eq!(item.get("record"), Some(&AttributeValue::Scalar(s("x"))));
    assert_eq!(item.get("data_version"), Some(&AttributeValue::Scalar(n("7"))));
    assert_eq!(item.get("on"), Some(&AttributeValue::Other(true)));
    assert_eq!(item.get("off"), None);

    let mut attributes: Vec<String> = item
        .into_attributes()
        .into_iter()
        .map(|(name, _)| name)
        .collect();
    attributes.sort();
    assert_eq!(attributes, vec!["data_version", "device", "on", "record"]);
}

#[test]
fn contents_that_do_not_serialize_are_refused() {
    let err = build_item::<bool>(&simple_schema(), "1", &None, 1, Err("not a map".to_string()))
        .unwrap_err();
    assert!(matches!(err, Error::Serialization(_)), "{err:?}");
    assert_eq!(
        err.to_string(),
        "Failed to serialize item for pk=1: not a map"
    );
}

#[test]
fn a_create_is_guarded_by_absence() {
    let guard = guard(&schema(), WriteCondition::MustNotExist);
    assert_eq!(guard.text, "attribute_not_exists(#pk)");
    assert_eq!(names(&guard), vec![("#pk", "device")]);
    assert_eq!(values(&guard), vec![]);
    assert_uses_what_it_declares(&guard);
}

#[test]
fn a_put_is_guarded_by_the_version() {
    let guard = guard(&schema(), WriteCondition::VersionIs(18446744073709551614));
    assert_eq!(guard.text, "#version = :expected");
    assert_eq!(names(&guard), vec![("#version", "data_version")]);
    assert_eq!(values(&guard), vec![(":expected", n("18446744073709551614"))]);
    assert_uses_what_it_declares(&guard);
}

/// An unversioned record has no version to compare, so version 0 is matched by its absence.
#[test]
fn version_zero_is_guarded_by_the_absence_of_a_version() {
    let guard = guard(&schema(), WriteCondition::VersionIs(0));
    assert_eq!(
        guard.text,
        "attribute_exists(#pk) AND attribute_not_exists(#version)"
    );
    assert_eq!(
        names(&guard),
        vec![("#pk", "device"), ("#version", "data_version")]
    );
    assert_eq!(values(&guard), vec![]);
    assert_uses_what_it_declares(&guard);
}

#[test]
fn guards_of_different_conditions_differ() {
    let conditions = [
        WriteCondition::MustNotExist,
        WriteCondition::VersionIs(0),
        WriteCondition::VersionIs(1),
        WriteCondition::VersionIs(10),
    ];
    for (i, a) in conditions.iter().enumerate() {
        for (j, b) in conditions.iter().enumerate() {
            let a = format!("{:?}", guard(&schema(), *a));
            let b = format!("{:?}", guard(&schema(), *b));
            assert_eq!(a == b, i == j);
        }
    }
}

#[test]
fn reading_the_version_takes_in_the_partition_key() {
    let projection = project_version(&schema());
    assert_eq!(projection.text, "#pk, #version");
    assert_eq!(
        names(&projection),
        vec![("#pk", "device"), ("#version", "data_version")]
    );
    assert_eq!(values(&projection), vec![]);
    assert_uses_what_it_declares(&projection);
}

#[test]
fn a_counter_request_adds_to_the_counter_and_to_the_version() {
    let sk = Some("METADATA".to_string());
    let request = counter_request(&schema(), "1", &sk, "next", -12).unwrap();
    assert_eq!(
        request.key,
        vec![
            ("device".to_string(), s("1")),
            ("record".to_string(), s("METADATA"))
        ]
    );
    assert_eq!(request.update.text, "ADD #counter :delta, #version :one");
    assert_eq!(
        names(&request.update),
        vec![("#counter", "next"), ("#version", "data_version")]
    );
    assert_eq!(
        values(&request.update),
        vec![(":delta", n("-12")), (":one", n("1"))]
    );
    // The new count is read from the attributes that the update touched.
    assert!(request.return_updated);
    assert_uses_what_it_declares(&request.update);
}

#[test]
fn deltas_are_written_as_numbers_are() {
    for delta in [0, 1, 9, 10, 1234567890, i64::MAX, -1, -10, i64::MIN] {
        let request = counter_request(&simple_schema(), "1", &None, "next", delta).unwrap();
        assert_eq!(
            values(&request.update)[0],
            (":delta", n(delta.to_string().as_str()))
        );
    }
}

#[test]
fn a_counter_request_refuses_reserved_attributes_first() {
    for attribute in ["device", "record", "data_version"] {
        let err = counter_request(&schema(), "1", &None, attribute, 1).unwrap_err();
        assert_eq!(
            err.to_string(),
            format!("a counter cannot be kept in the reserved attribute {attribute:?}")
        );
    }
    let err = counter_request(&schema(), "1", &None, "next", 1).unwrap_err();
    assert_eq!(
        err.to_string(),
        "PrimaryIndex has a sort key, but none was provided"
    );
}

#[test]
fn a_query_of_the_base_table_names_no_index() {
    let request = query_request(&schema(), &AnyIndex::from(schema()), "1", &None).unwrap();
    assert_eq!(request.index_name, None);
    assert_eq!(request.key_condition.text, "#pk = :pk");
    assert_eq!(names(&request.key_condition), vec![("#pk", "device")]);
    assert_eq!(values(&request.key_condition), vec![(":pk", s("1"))]);
    assert_uses_what_it_declares(&request.key_condition);
}

#[test]
fn a_prefix_query_begins_with_it() {
    let index = AnyIndex::from(GlobalSecondaryIndex {
        name: "GSI1".to_string(),
        keys: KeySchema {
            pk_identifier: "gsi1pk".to_string(),
            sk_identifier: Some("gsi1sk".to_string()),
        },
    });
    let condition = Some(SortKeyCondition::Prefix("user#".to_string()));
    let request = query_request(&schema(), &index, "team#a", &condition).unwrap();
    assert_eq!(request.index_name, Some("GSI1".to_string()));
    assert_eq!(
        request.key_condition.text,
        "#pk = :pk AND begins_with(#sk, :sk_value)"
    );
    assert_eq!(
        names(&request.key_condition),
        vec![("#pk", "gsi1pk"), ("#sk", "gsi1sk")]
    );
    assert_eq!(
        values(&request.key_condition),
        vec![(":pk", s("team#a")), (":sk_value", s("user#"))]
    );
    assert_uses_what_it_declares(&request.key_condition);
}

#[test]
fn a_between_query_takes_both_ends() {
    let index = AnyIndex::from(LocalSecondaryIndex {
        name: "LSI1".to_string(),
        sk_identifier: "lsi1sk".to_string(),
    });
    let condition = Some(SortKeyCondition::Between("a".to_string(), "b".to_string()));
    let request = query_request(&schema(), &index, "1", &condition).unwrap();
    assert_eq!(request.index_name, Some("LSI1".to_string()));
    assert_eq!(
        request.key_condition.text,
        "#pk = :pk AND #sk BETWEEN :sk_low AND :sk_high"
    );
    // An LSI shares the partition key of the base table.
    assert_eq!(
        names(&request.key_condition),
        vec![("#pk", "device"), ("#sk", "lsi1sk")]
    );
    assert_eq!(
        values(&request.key_condition),
        vec![(":pk", s("1")), (":sk_low", s("a")), (":sk_high", s("b"))]
    );
    assert_uses_what_it_declares(&request.key_condition);
}

#[test]
fn refused_queries_are_never_sent() {
    let condition = Some(SortKeyCondition::GreaterThan("x".to_string()));
    let err = query_request(&schema(), &AnyIndex::from(simple_schema()), "1", &condition)
        .unwrap_err();
    assert_eq!(
        err.to_string(),
        "a sort key condition was provided but the index has no sort key"
    );
    let err = query_request(&schema(), &AnyIndex::from(schema()), "1", &condition).unwrap_err();
    assert_eq!(
        err.to_string(),
        r#"GreaterThan("x") is not yet implemented by AwsDynamoDb"#
    );
}
