use pro_dynamo::{Error, KeySchema, PrimaryIndex, SortKeyCondition};

fn boxed() -> Result<(), Box<dyn std::error::Error>> {
    Err(Error::Service("backend exploded".to_string()).to_string())?;
    Ok(())
}

fn composite() -> PrimaryIndex {
    PrimaryIndex {
        keys: KeySchema {
            pk_identifier: "pk".to_string(),
            sk_identifier: Some("sk".to_string()),
        },
    }
}

#[test]
fn conflict_display_names_the_key_and_expected_version() {
    let err = Error::Conflict {
        pk: "device#1".to_string(),
        sk: Some("METADATA".to_string()),
        expected_version: 4,
    };

    assert_eq!(
        err.to_string(),
        r#"Optimistic concurrency conflict for pk=device#1, sk=Some("METADATA"): expected version 4"#
    );
}

/// Callers need `?` into `Box<dyn Error>` to keep working on what an error says.
#[test]
fn error_is_a_std_error() {
    assert_eq!(boxed().unwrap_err().to_string(), "backend exploded");
}

#[test]
fn a_collision_names_the_key() {
    let with_sk = Error::AlreadyExists {
        pk: "device#1".to_string(),
        sk: Some("METADATA".to_string()),
    };
    assert_eq!(
        with_sk.to_string(),
        r#"Item already exists for pk=device#1, sk=Some("METADATA")"#
    );

    let without_sk = Error::AlreadyExists {
        pk: "device#1".to_string(),
        sk: None,
    };
    assert_eq!(
        without_sk.to_string(),
        "Item already exists for pk=device#1, sk=None"
    );
}

#[test]
fn sort_keys_are_shown_escaped() {
    let sk = "a\"b\\c\n".to_string();
    let err = Error::Conflict {
        pk: "p".to_string(),
        sk: Some(sk.clone()),
        expected_version: u64::MAX,
    };
    assert_eq!(
        err.to_string(),
        format!(
            "Optimistic concurrency conflict for pk=p, sk={:?}: expected version 18446744073709551615",
            Some(sk)
        )
    );
}

#[test]
fn printable_sort_keys_are_shown_as_they_are() {
    let plain: String = (' '..='~').filter(|c| *c != '"' && *c != '\\').collect();
    let err = Error::AlreadyExists {
        pk: "p".to_string(),
        sk: Some(plain.clone()),
    };
    assert_eq!(
        err.to_string(),
        format!("Item already exists for pk=p, sk=Some(\"{plain}\")")
    );
}

#[test]
fn other_errors_are_their_message() {
    assert_eq!(Error::InvalidRequest("a".to_string()).to_string(), "a");
    assert_eq!(Error::Unsupported("b".to_string()).to_string(), "b");
    assert_eq!(Error::Serialization("c".to_string()).to_string(), "c");
    assert_eq!(Error::Service("d".to_string()).to_string(), "d");
}

#[test]
fn lost_races_are_told_from_other_errors() {
    assert!(Error::AlreadyExists {
        pk: "p".to_string(),
        sk: None
    }
    .is_lost_race());
    assert!(Error::Conflict {
        pk: "p".to_string(),
        sk: None,
        expected_version: 1
    }
    .is_lost_race());
    assert!(!Error::InvalidRequest("x".to_string()).is_lost_race());
    assert!(!Error::Unsupported("x".to_string()).is_lost_race());
    assert!(!Error::Serialization("x".to_string()).is_lost_race());
    assert!(!Error::Service("x".to_string()).is_lost_race());
}

#[test]
fn shared_rejections_have_fixed_wording() {
    assert_eq!(
        Error::zero_expected_version().to_string(),
        "put_item() does not accept version=0. Use put_item_unconditional()"
    );
    assert_eq!(
        Error::sk_condition_without_sort_key().to_string(),
        "a sort key condition was provided but the index has no sort key"
    );
}

#[test]
fn conditions_are_shown_as_debug_shows_them() {
    let v = || "a\"b".to_string();
    let conditions = vec![
        SortKeyCondition::Equals(v()),
        SortKeyCondition::LessThan(v()),
        SortKeyCondition::LessThanOrEqual(v()),
        SortKeyCondition::GreaterThan(v()),
        SortKeyCondition::GreaterThanOrEqual(v()),
        SortKeyCondition::Between(v(), "z\t".to_string()),
        SortKeyCondition::Prefix(v()),
    ];
    for condition in conditions {
        assert_eq!(condition.show(), format!("{condition:?}"));
    }
}

#[test]
fn resolve_sk_pairs_the_value_with_its_attribute_name() {
    let schema = composite();
    assert_eq!(
        schema.resolve_sk(&Some("METADATA".to_string())).unwrap(),
        Some(("sk", "METADATA".to_string()))
    );
    assert_eq!(
        schema.resolve_sk(&None).unwrap_err().to_string(),
        "PrimaryIndex has a sort key, but none was provided"
    );

    let simple = PrimaryIndex {
        keys: KeySchema {
            pk_identifier: "pk".to_string(),
            sk_identifier: None,
        },
    };
    assert_eq!(simple.resolve_sk(&None).unwrap(), None);
    assert_eq!(
        simple
            .resolve_sk(&Some("METADATA".to_string()))
            .unwrap_err()
            .to_string(),
        "a sort key was provided, but PrimaryIndex has none"
    );
}

#[test]
fn counters_cannot_be_kept_in_reserved_attributes() {
    let schema = composite();
    assert!(schema.validate_counter_attribute("next").is_ok());
    for reserved in ["pk", "sk", "data_version"] {
        let err = schema.validate_counter_attribute(reserved).unwrap_err();
        assert!(matches!(err, Error::InvalidRequest(_)), "{err:?}");
        assert_eq!(
            err.to_string(),
            format!("a counter cannot be kept in the reserved attribute {reserved:?}")
        );
    }
}
