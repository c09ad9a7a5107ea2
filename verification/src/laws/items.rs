//! What is sent to the service: keys, items and requests.

use crate::aws::item::{AttributeValue, AttributeView, Scalar, ScalarView};
use crate::aws::request;
use crate::aws::request::{Expression, WriteCondition};
use crate::error::ErrorView;
use crate::laws::expressions;
use crate::schema::{AnyIndex, PrimaryIndex, SortKeyCondition};
use crate::text;
use vstd::prelude::*;

verus! {

/// The attributes of a key are the partition key and then the sort key, each as a string under the
/// name that the schema has for it.
pub proof fn law_a_key_is_its_attributes(
    schema: PrimaryIndex,
    pk: Seq<char>,
    sk_name: Seq<char>,
    sk: Seq<char>,
)
    ensures
        request::key_attributes(schema, pk, None) == seq![
            (schema.keys.pk_identifier@, ScalarView::S(pk)),
        ],
        request::key_attributes(schema, pk, Some((sk_name, sk))) == seq![
            (schema.keys.pk_identifier@, ScalarView::S(pk)),
            (sk_name, ScalarView::S(sk)),
        ],
{
}

/// A request about an item carries the key that is given, where the sort key matches the schema,
/// and is refused otherwise.
pub proof fn law_a_request_carries_its_key(
    schema: PrimaryIndex,
    pk: Seq<char>,
    sk: Option<Seq<char>>,
)
    ensures
        schema.keys.sk_identifier is Some && sk is Some ==> request::keyed_request(schema, pk, sk)
            == Ok::<Seq<(Seq<char>, ScalarView)>, ErrorView>(
            seq![
                (schema.keys.pk_identifier@, ScalarView::S(pk)),
                (schema.keys.sk_identifier->Some_0@, ScalarView::S(sk->Some_0)),
            ],
        ),
        schema.keys.sk_identifier is None && sk is None ==> request::keyed_request(schema, pk, sk)
            == Ok::<Seq<(Seq<char>, ScalarView)>, ErrorView>(
            seq![(schema.keys.pk_identifier@, ScalarView::S(pk))],
        ),
        schema.keys.sk_identifier is Some && sk is None ==> request::keyed_request(schema, pk, sk)
            == Err::<Seq<(Seq<char>, ScalarView)>, ErrorView>(
            ErrorView::InvalidRequest("PrimaryIndex has a sort key, but none was provided"@),
        ),
        schema.keys.sk_identifier is None && sk is Some ==> request::keyed_request(schema, pk, sk)
            == Err::<Seq<(Seq<char>, ScalarView)>, ErrorView>(
            ErrorView::InvalidRequest("a sort key was provided, but PrimaryIndex has none"@),
        ),
{
}

/// The written item keeps its contents: under every name but those of the key and the version it
/// holds what the contents hold, and nothing where they hold nothing, at every version.
pub proof fn law_a_written_item_keeps_its_contents<V>(
    schema: PrimaryIndex,
    pk: Seq<char>,
    sk: Option<(Seq<char>, Seq<char>)>,
    version: u64,
    contents: Map<Seq<char>, AttributeView<V>>,
    name: Seq<char>,
)
    requires
        name != "data_version"@,
        name != schema.keys.pk_identifier@,
        sk matches Some((sk_name, _)) ==> name != sk_name,
    ensures
        ({
            let item = request::built_item(schema, pk, sk, version, contents);
            &&& item.contains_key(name) <==> contents.contains_key(name)
            &&& contents.contains_key(name) ==> item[name] == contents[name]
        }),
{
}

/// The written item carries its version as a number and its key as strings, whatever its contents
/// hold there. Where names coincide, the sort key goes before the partition key, and that before
/// the version.
pub proof fn law_a_written_item_carries_its_version_and_its_key<V>(
    schema: PrimaryIndex,
    pk: Seq<char>,
    sk: Option<(Seq<char>, Seq<char>)>,
    version: u64,
    contents: Map<Seq<char>, AttributeView<V>>,
)
    ensures
        ({
            let item = request::built_item(schema, pk, sk, version, contents);
            let pk_name = schema.keys.pk_identifier@;
            let sk_name = sk->Some_0.0;
            &&& sk is Some ==> item.contains_key(sk_name) && item[sk_name]
                == AttributeView::<V>::Scalar(ScalarView::S(sk->Some_0.1))
            &&& item.contains_key(pk_name)
            &&& !(sk is Some && sk_name == pk_name) ==> item[pk_name]
                == AttributeView::<V>::Scalar(ScalarView::S(pk))
            &&& item.contains_key("data_version"@)
            &&& pk_name != "data_version"@ && !(sk is Some && sk_name == "data_version"@)
                ==> item["data_version"@] == AttributeView::<V>::Scalar(
                ScalarView::N(text::decimal(version as nat)),
            )
        }),
{
}

/// Adding a key to an item changes the attributes of the key alone.
pub proof fn law_adding_a_key_changes_nothing_else<V>(
    schema: PrimaryIndex,
    pk: Seq<char>,
    sk: Option<(Seq<char>, Seq<char>)>,
    item: Map<Seq<char>, AttributeView<V>>,
    name: Seq<char>,
)
    requires
        name != schema.keys.pk_identifier@,
        sk matches Some((sk_name, _)) ==> name != sk_name,
    ensures
        ({
            let keyed = request::with_key(schema, pk, sk, item);
            &&& keyed.contains_key(name) <==> item.contains_key(name)
            &&& item.contains_key(name) ==> keyed[name] == item[name]
        }),
{
}

/// A count is refused before it is sent for a reserved attribute, and then for a sort key that
/// does not match the schema, and for nothing else.
pub proof fn law_counts_are_refused_for_their_attribute_or_their_key(
    schema: PrimaryIndex,
    sk: Option<Seq<char>>,
    attribute: Seq<char>,
)
    ensures
        ({
            let refusal = request::counter_rejection(schema, sk, attribute);
            let reserved = attribute == schema.keys.pk_identifier@ || attribute
                == "data_version"@ || (schema.keys.sk_identifier is Some && attribute
                == schema.keys.sk_identifier->Some_0@);
            let matched = schema.keys.sk_identifier is Some <==> sk is Some;
            &&& reserved ==> refusal == Some(
                ErrorView::InvalidRequest(
                    "a counter cannot be kept in the reserved attribute "@ + text::quoted(
                        attribute,
                    ),
                ),
            )
            &&& !reserved && !matched && schema.keys.sk_identifier is Some ==> refusal == Some(
                ErrorView::InvalidRequest("PrimaryIndex has a sort key, but none was provided"@),
            )
            &&& !reserved && !matched && schema.keys.sk_identifier is None ==> refusal == Some(
                ErrorView::InvalidRequest("a sort key was provided, but PrimaryIndex has none"@),
            )
            &&& !reserved && matched ==> refusal is None
        }),
{
}

/// Each placeholder of an expression stands for the attribute or the value that it is named after,
/// whatever the expression is about, and the texts of guards, counters and reads of the version
/// depend on nothing.
pub proof fn law_placeholders_stand_for_what_they_are_named_after(
    schema: PrimaryIndex,
    attribute: Seq<char>,
    delta: i64,
    expected: u64,
)
    ensures
        ({
            let update = request::counter_update(attribute, delta);
            &&& update.text == "ADD #counter :delta, #version :one"@
            &&& update.names == seq![("#counter"@, attribute), ("#version"@, "data_version"@)]
            &&& update.values == seq![
                (":delta"@, ScalarView::N(text::signed_decimal(delta as int))),
                (":one"@, ScalarView::N(text::decimal(1))),
            ]
        }),
        ({
            let read = request::version_projection(schema);
            &&& read.text == "#pk, #version"@
            &&& read.names == seq![
                ("#pk"@, schema.keys.pk_identifier@),
                ("#version"@, "data_version"@),
            ]
            &&& read.values.len() == 0
        }),
        ({
            let guard = request::guard_expression(schema, WriteCondition::MustNotExist);
            &&& guard.text == "attribute_not_exists(#pk)"@
            &&& guard.names == seq![("#pk"@, schema.keys.pk_identifier@)]
            &&& guard.values.len() == 0
        }),
        ({
            let guard = request::guard_expression(schema, WriteCondition::VersionIs(0));
            &&& guard.text == "attribute_exists(#pk) AND attribute_not_exists(#version)"@
            &&& guard.names == seq![
                ("#pk"@, schema.keys.pk_identifier@),
                ("#version"@, "data_version"@),
            ]
            &&& guard.values.len() == 0
        }),
        expected > 0 ==> {
            let guard = request::guard_expression(schema, WriteCondition::VersionIs(expected));
            &&& guard.text == "#version = :expected"@
            &&& guard.names == seq![("#version"@, "data_version"@)]
            &&& guard.values == seq![
                (":expected"@, ScalarView::N(text::decimal(expected as nat))),
            ]
        },
{
}

/// The placeholders of a query stand for the key attributes of its index, and for the partition
/// key and the bounds on the sort key that it is asked for.
pub proof fn law_a_query_carries_its_keys(
    schema: PrimaryIndex,
    index: AnyIndex,
    pk: Seq<char>,
    prefix: String,
    low: String,
    high: String,
)
    ensures
        ({
            let pk_name = expressions::partition_key_of(index, schema);
            let query = request::query_expression(schema, index, pk, None);
            &&& query.text == "#pk = :pk"@
            &&& query.names == seq![("#pk"@, pk_name)]
            &&& query.values == seq![(":pk"@, ScalarView::S(pk))]
        }),
        expressions::sort_key_of(index) matches Some(sk_name) ==> {
            let pk_name = expressions::partition_key_of(index, schema);
            let prefixed = request::query_expression(
                schema,
                index,
                pk,
                Some(SortKeyCondition::Prefix(prefix)),
            );
            let between = request::query_expression(
                schema,
                index,
                pk,
                Some(SortKeyCondition::Between(low, high)),
            );
            &&& prefixed.text == "#pk = :pk"@ + " AND begins_with(#sk, :sk_value)"@
            &&& prefixed.names == seq![("#pk"@, pk_name), ("#sk"@, sk_name@)]
            &&& prefixed.values == seq![
                (":pk"@, ScalarView::S(pk)),
                (":sk_value"@, ScalarView::S(prefix@)),
            ]
            &&& between.text == "#pk = :pk"@ + " AND #sk BETWEEN :sk_low AND :sk_high"@
            &&& between.names == seq![("#pk"@, pk_name), ("#sk"@, sk_name@)]
            &&& between.values == seq![
                (":pk"@, ScalarView::S(pk)),
                (":sk_low"@, ScalarView::S(low@)),
                (":sk_high"@, ScalarView::S(high@)),
            ]
        },
{
}

/// Texts, numbers, attributes and expressions are seen as what they hold.
pub proof fn law_values_are_seen_as_they_are<V>(
    text: String,
    scalar: Scalar,
    other: V,
    expression: Expression,
    names: Seq<(String, String)>,
    values: Seq<(String, Scalar)>,
    i: int,
)
    ensures
        Scalar::S(text)@ == ScalarView::S(text@),
        Scalar::N(text)@ == ScalarView::N(text@),
        AttributeValue::<V>::Scalar(scalar)@ == AttributeView::<V>::Scalar(scalar@),
        AttributeValue::<V>::Other(other)@ == AttributeView::<V>::Other(other),
        expression@.text == expression.text@,
        expression@.names == request::names_view(expression.names@),
        expression@.values == request::values_view(expression.values@),
        request::names_view(names).len() == names.len(),
        0 <= i < names.len() ==> request::names_view(names)[i] == (names[i].0@, names[i].1@),
        request::values_view(values).len() == values.len(),
        0 <= i < values.len() ==> request::values_view(values)[i] == (values[i].0@, values[i].1@),
{
}

} // verus!
