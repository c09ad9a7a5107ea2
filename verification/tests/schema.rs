use pro_dynamo::schema::check_query;
use pro_dynamo::{
    AnyIndex, Error, GlobalSecondaryIndex, KeySchema, LocalSecondaryIndex, PrimaryIndex,
    SortKeyCondition, INITIAL_DATA_VERSION,
};

fn keys(pk: &str, sk: Option<&str>) -> KeySchema {
    KeySchema {
        pk_identifier: pk.to_string(),
        sk_identifier: sk.map(String::from),
    }
}

fn table() -> PrimaryIndex {
    PrimaryIndex {
        keys: keys("tablepk", Some("tablesk")),
    }
}

fn gsi(sk: Option<&str>) -> GlobalSecondaryIndex {
    GlobalSecondaryIndex {
        name: "GSI1".to_string(),
        keys: keys("gsi1pk", sk),
    }
}

fn lsi() -> LocalSecondaryIndex {
    LocalSecondaryIndex {
        name: "LSI1".to_string(),
        sk_identifier: "lsi1sk".to_string(),
    }
}

#[test]
fn new_items_start_at_version_one() {
    assert_eq!(INITIAL_DATA_VERSION, 1);
}

#[test]
fn the_primary_index_has_no_name() {
    let index = AnyIndex::from(PrimaryIndex {
        keys: keys("pk", None),
    });
    assert_eq!(index.index_name(), None);
    assert_eq!(index.pk_identifier(&table()), "pk");
    assert_eq!(index.sk_identifier(), None);
}

#[test]
fn a_gsi_has_its_own_keys() {
    let index = AnyIndex::from(gsi(Some("gsi1sk")));
    assert_eq!(index.index_name(), Some("GSI1"));
    assert_eq!(index.pk_identifier(&table()), "gsi1pk");
    assert_eq!(index.sk_identifier(), Some("gsi1sk"));
    assert_eq!(AnyIndex::from(gsi(None)).sk_identifier(), None);
}

#[test]
fn an_lsi_shares_the_partition_key_of_the_table() {
    let index = AnyIndex::from(lsi());
    assert_eq!(index.index_name(), Some("LSI1"));
    assert_eq!(index.pk_identifier(&table()), "tablepk");
    assert_eq!(index.sk_identifier(), Some("lsi1sk"));
}

#[test]
fn prefixes_are_prefixes() {
    let condition = SortKeyCondition::Prefix("EVENT#".to_string());
    assert!(condition.holds(Some("EVENT#1")));
    assert!(condition.holds(Some("EVENT#")));
    assert!(!condition.holds(Some("EVENT")));
    assert!(!condition.holds(Some("event#1")));
    assert!(!condition.holds(None));
    assert!(SortKeyCondition::Prefix(String::new()).holds(Some("")));
    assert!(SortKeyCondition::Prefix("é".to_string()).holds(Some("été")));
}

#[test]
fn between_takes_in_both_ends() {
    let condition = SortKeyCondition::Between("b".to_string(), "d".to_string());
    assert!(!condition.holds(Some("a")));
    assert!(!condition.holds(Some("azzz")));
    assert!(condition.holds(Some("b")));
    assert!(condition.holds(Some("czzz")));
    assert!(condition.holds(Some("d")));
    assert!(!condition.holds(Some("d0")));
    assert!(!condition.holds(None));
}

#[test]
fn between_orders_as_strings_do() {
    let samples = ["", "A", "Z", "a", "aa", "ab", "b", "ä", "日本", "\u{10ffff}"];
    for low in samples {
        for high in samples {
            let condition = SortKeyCondition::Between(low.to_string(), high.to_string());
            for sk in samples {
                assert_eq!(condition.holds(Some(sk)), low <= sk && sk <= high);
            }
        }
    }
}

#[test]
fn a_condition_needs_a_sort_key() {
    let condition = Some(SortKeyCondition::Prefix("x".to_string()));
    let err = check_query(&AnyIndex::from(gsi(None)), &condition, "AwsDynamoDb").unwrap_err();
    assert_eq!(
        err.to_string(),
        "a sort key condition was provided but the index has no sort key"
    );
    assert!(check_query(&AnyIndex::from(gsi(Some("s"))), &condition, "AwsDynamoDb").is_ok());
    assert!(check_query(&AnyIndex::from(gsi(None)), &None, "AwsDynamoDb").is_ok());
}

#[test]
fn every_unimplemented_condition_is_named_in_its_refusal() {
    let v = || "METADATA".to_string();
    let conditions = vec![
        SortKeyCondition::Equals(v()),
        SortKeyCondition::LessThan(v()),
        SortKeyCondition::LessThanOrEqual(v()),
        SortKeyCondition::GreaterThan(v()),
        SortKeyCondition::GreaterThanOrEqual(v()),
    ];
    for condition in conditions {
        for backend in ["AwsDynamoDb", "MockDynamoDb"] {
            let expected = format!("{condition:?} is not yet implemented by {backend}");
            let err = check_query(&AnyIndex::from(lsi()), &Some(condition.clone()), backend)
                .unwrap_err();
            assert!(matches!(err, Error::Unsupported(_)), "{err:?}");
            assert_eq!(err.to_string(), expected);
        }
    }
}
