//! Requests: which item they are about, and the expressions that they carry.

use crate::aws::item::{AttributeValue, AttributeView, Item, Scalar, ScalarView};
use crate::error::{Error, ErrorView};
use crate::schema;
use crate::schema::{
    check_query, AnyIndex, PrimaryIndex, SortKeyCondition, DATA_VERSION_ATTRIBUTE,
    INITIAL_DATA_VERSION,
};
use crate::text;
use crate::text::{i64_text, u64_text};
use vstd::prelude::*;
use vstd::string::*;

verus! {

broadcast use vstd::string::group_string_axioms;

/// The guard placed on a conditional write.
#[derive(Debug, Clone, Copy)]
pub enum WriteCondition {
    /// No item may exist under the key.
    MustNotExist,
    /// An item must exist and its stored `data_version` must be exactly this.
    VersionIs(u64),
}

/// An expression, with the placeholders that stand in it for attribute names and for values.
#[derive(Debug)]
pub struct Expression {
    pub text: String,
    /// What each `#` placeholder stands for.
    pub names: Vec<(String, String)>,
    /// What each `:` placeholder stands for.
    pub values: Vec<(String, Scalar)>,
}

/// What an [`Expression`] says.
#[verifier::ext_equal]
pub struct ExpressionView {
    pub text: Seq<char>,
    pub names: Seq<(Seq<char>, Seq<char>)>,
    pub values: Seq<(Seq<char>, ScalarView)>,
}

/// Pairs of a placeholder and an attribute name, by their characters.
pub open spec fn names_view(names: Seq<(String, String)>) -> Seq<(Seq<char>, Seq<char>)> {
    names.map_values(|name: (String, String)| (name.0@, name.1@))
}

/// Pairs of a placeholder or an attribute name and a value, by what they say.
pub open spec fn values_view(values: Seq<(String, Scalar)>) -> Seq<(Seq<char>, ScalarView)> {
    values.map_values(|value: (String, Scalar)| (value.0@, value.1@))
}

impl View for Expression {
    type V = ExpressionView;

    open spec fn view(&self) -> ExpressionView {
        ExpressionView {
            text: self.text@,
            names: names_view(self.names@),
            values: values_view(self.values@),
        }
    }
}

impl Expression {
    fn new(text: &str) -> (expression: Self)
        ensures
            expression@ == (ExpressionView { text: text@, names: seq![], values: seq![] }),
    {
        let expression = Expression {
            text: text.to_string(),
            names: Vec::new(),
            values: Vec::new(),
        };
        assert(names_view(expression.names@) =~= seq![]);
        assert(values_view(expression.values@) =~= seq![]);
        expression
    }

    fn append(&mut self, text: &str)
        ensures
            final(self)@ == (ExpressionView { text: old(self)@.text + text@, ..old(self)@ }),
    {
        self.text.append(text);
    }

    fn name(&mut self, placeholder: &str, name: &str)
        ensures
            final(self)@ == (ExpressionView {
                names: old(self)@.names.push((placeholder@, name@)),
                ..old(self)@
            }),
    {
        let ghost before = self.names@;
        self.names.push((placeholder.to_string(), name.to_string()));
        assert(names_view(self.names@) =~= names_view(before).push((placeholder@, name@)));
    }

    fn value(&mut self, placeholder: &str, value: Scalar)
        ensures
            final(self)@ == (ExpressionView {
                values: old(self)@.values.push((placeholder@, value@)),
                ..old(self)@
            }),
    {
        let ghost before = self.values@;
        self.values.push((placeholder.to_string(), value));
        assert(values_view(self.values@) =~= values_view(before).push((placeholder@, value@)));
    }
}

// ---------------------------------------------------------------------------------------------
// Primary keys
// ---------------------------------------------------------------------------------------------

/// The attributes of a primary key, under the names that `schema` gives them: the partition key,
/// and the sort key attribute `sk` if there is one.
pub open spec fn key_attributes(
    schema: PrimaryIndex,
    pk: Seq<char>,
    sk: Option<(Seq<char>, Seq<char>)>,
) -> Seq<(Seq<char>, ScalarView)> {
    let partition = (schema.keys.pk_identifier@, ScalarView::S(pk));
    match sk {
        Some((name, value)) => seq![partition, (name, ScalarView::S(value))],
        None => seq![partition],
    }
}

/// An item with the attributes of a primary key added, in place of what it had under their
/// names.
pub open spec fn with_key<V>(
    schema: PrimaryIndex,
    pk: Seq<char>,
    sk: Option<(Seq<char>, Seq<char>)>,
    item: Map<Seq<char>, AttributeView<V>>,
) -> Map<Seq<char>, AttributeView<V>> {
    let keyed = item.insert(
        schema.keys.pk_identifier@,
        AttributeView::Scalar(ScalarView::S(pk)),
    );
    match sk {
        Some((name, value)) => keyed.insert(name, AttributeView::Scalar(ScalarView::S(value))),
        None => keyed,
    }
}

/// The item to write for `contents`: it carries its version under the attribute for it, and the
/// attributes of its primary key.
pub open spec fn built_item<V>(
    schema: PrimaryIndex,
    pk: Seq<char>,
    sk: Option<(Seq<char>, Seq<char>)>,
    data_version: u64,
    contents: Map<Seq<char>, AttributeView<V>>,
) -> Map<Seq<char>, AttributeView<V>> {
    with_key(
        schema,
        pk,
        sk,
        contents.insert(
            DATA_VERSION_ATTRIBUTE@,
            AttributeView::Scalar(ScalarView::N(text::decimal(data_version as nat))),
        ),
    )
}

/// The failure to serialize the item under `pk` for `reason`.
pub open spec fn unserializable_item(pk: Seq<char>, reason: Seq<char>) -> ErrorView {
    ErrorView::Serialization("Failed to serialize item for pk="@ + pk + ": "@ + reason)
}

/// The attributes of the primary key `(pk, sk)`, once `sk` has been resolved to `sk_attr`.
pub fn primary_key(
    schema: &PrimaryIndex,
    pk: &str,
    sk_attr: &Option<(&str, String)>,
) -> (key: Vec<(String, Scalar)>)
    ensures
        values_view(key@) == key_attributes(*schema, pk@, schema::attribute_of(*sk_attr)),
{
    let mut key: Vec<(String, Scalar)> = Vec::new();
    key.push((schema.keys.pk_identifier.clone(), Scalar::S(pk.to_string())));
    if let Some((name, value)) = sk_attr {
        key.push(((*name).to_string(), Scalar::S(value.clone())));
    }
    assert(values_view(key@) =~= key_attributes(*schema, pk@, schema::attribute_of(*sk_attr)));
    key
}

/// Builds the item to write under `(pk, sk)` at `data_version`, once `sk` has been resolved to
/// `sk_attr`, out of what serializing its contents came to: the version is added, and the primary
/// key attributes under the names that the schema specifies.
pub fn build_item<V>(
    schema: &PrimaryIndex,
    pk: &str,
    sk_attr: &Option<(&str, String)>,
    data_version: u64,
    contents: Result<Item<V>, String>,
) -> (built: Result<Item<V>, Error>)
    ensures
        match (contents, built) {
            (Ok(before), Ok(item)) => item@ == built_item(
                *schema,
                pk@,
                schema::attribute_of(*sk_attr),
                data_version,
                before@,
            ),
            (Err(reason), Err(error)) => error@ == unserializable_item(pk@, reason@),
            _ => false,
        },
{
    match contents {
        Ok(before) => {
            let mut item = before;
            item.insert(
                DATA_VERSION_ATTRIBUTE.to_string(),
                AttributeValue::Scalar(Scalar::N(u64_text(data_version))),
            );
            item.insert(
                schema.keys.pk_identifier.clone(),
                AttributeValue::Scalar(Scalar::S(pk.to_string())),
            );
            if let Some((name, value)) = sk_attr {
                item.insert(
                    (*name).to_string(),
                    AttributeValue::Scalar(Scalar::S(value.clone())),
                );
            }
            Ok(item)
        },
        Err(reason) => {
            let mut message = "Failed to serialize item for pk=".to_string();
            message.append(pk);
            message.append(": ");
            message.append(reason.as_str());
            Err(Error::Serialization(message))
        },
    }
}

/// A request about the item under `(pk, sk)` and nothing more: its key, or the rejection of
/// `sk`.
pub open spec fn keyed_request(schema: PrimaryIndex, pk: Seq<char>, sk: Option<Seq<char>>) -> Result<
    Seq<(Seq<char>, ScalarView)>,
    ErrorView,
> {
    if schema.accepts(sk) {
        Ok(key_attributes(schema, pk, schema.sk_attribute(sk)))
    } else {
        Err(schema.sk_error())
    }
}

/// The key that a read or a deletion of the item under `(pk, sk)` is about.
pub fn item_key(schema: &PrimaryIndex, pk: &str, sk: &Option<String>) -> (key: Result<
    Vec<(String, Scalar)>,
    Error,
>)
    ensures
        match key {
            Ok(key) => keyed_request(*schema, pk@, text::chars_of(*sk)) == Ok::<
                Seq<(Seq<char>, ScalarView)>,
                ErrorView,
            >(values_view(key@)),
            Err(error) => keyed_request(*schema, pk@, text::chars_of(*sk)) == Err::<
                Seq<(Seq<char>, ScalarView)>,
                ErrorView,
            >(error@),
        },
{
    match schema.resolve_sk(sk) {
        Ok(sk_attr) => Ok(primary_key(schema, pk, &sk_attr)),
        Err(error) => Err(error),
    }
}

// ---------------------------------------------------------------------------------------------
// Guards
// ---------------------------------------------------------------------------------------------

/// The expression of a guard.
///
/// Only the names and values that an expression actually references are declared: the service
/// rejects a request if any go unused. The attribute names go through placeholders because they
/// are configurable and could collide with a reserved word.
pub open spec fn guard_expression(schema: PrimaryIndex, condition: WriteCondition) -> ExpressionView {
    let pk = ("#pk"@, schema.keys.pk_identifier@);
    let version = ("#version"@, DATA_VERSION_ATTRIBUTE@);
    match condition {
        WriteCondition::MustNotExist => ExpressionView {
            text: "attribute_not_exists(#pk)"@,
            names: seq![pk],
            values: seq![],
        },
        WriteCondition::VersionIs(expected) => if expected == 0 {
            // A record written before versioning existed carries no version attribute at all, so
            // version 0 is matched by absence rather than by equality.
            ExpressionView {
                text: "attribute_exists(#pk) AND attribute_not_exists(#version)"@,
                names: seq![pk, version],
                values: seq![],
            }
        } else {
            ExpressionView {
                text: "#version = :expected"@,
                names: seq![version],
                values: seq![(":expected"@, ScalarView::N(text::decimal(expected as nat)))],
            }
        },
    }
}

/// The expression of a guard.
pub fn guard(schema: &PrimaryIndex, condition: WriteCondition) -> (expression: Expression)
    ensures
        expression@ == guard_expression(*schema, condition),
{
    match condition {
        WriteCondition::MustNotExist => {
            let mut expression = Expression::new("attribute_not_exists(#pk)");
            expression.name("#pk", schema.keys.pk_identifier.as_str());
            assert(expression@ =~= guard_expression(*schema, condition));
            expression
        },
        WriteCondition::VersionIs(expected) => if expected == 0 {
            let mut expression = Expression::new(
                "attribute_exists(#pk) AND attribute_not_exists(#version)",
            );
            expression.name("#pk", schema.keys.pk_identifier.as_str());
            expression.name("#version", DATA_VERSION_ATTRIBUTE);
            assert(expression@ =~= guard_expression(*schema, condition));
            expression
        } else {
            let mut expression = Expression::new("#version = :expected");
            expression.name("#version", DATA_VERSION_ATTRIBUTE);
            expression.value(":expected", Scalar::N(u64_text(expected)));
            assert(expression@ =~= guard_expression(*schema, condition));
            expression
        },
    }
}

// ---------------------------------------------------------------------------------------------
// Reading just the version
// ---------------------------------------------------------------------------------------------

/// The projection of a read that is after the version alone. It takes in the partition key, so
/// that an unversioned item is still distinguishable from an absent one.
pub open spec fn version_projection(schema: PrimaryIndex) -> ExpressionView {
    ExpressionView {
        text: "#pk, #version"@,
        names: seq![
            ("#pk"@, schema.keys.pk_identifier@),
            ("#version"@, DATA_VERSION_ATTRIBUTE@),
        ],
        values: seq![],
    }
}

/// The projection of a read that is after the version alone.
pub fn project_version(schema: &PrimaryIndex) -> (expression: Expression)
    ensures
        expression@ == version_projection(*schema),
{
    let mut expression = Expression::new("#pk, #version");
    expression.name("#pk", schema.keys.pk_identifier.as_str());
    expression.name("#version", DATA_VERSION_ATTRIBUTE);
    assert(expression@ =~= version_projection(*schema));
    expression
}

// ---------------------------------------------------------------------------------------------
// Counters
// ---------------------------------------------------------------------------------------------

/// The update that adds `delta` to the counter in `attribute`, and one to the version.
///
/// `ADD` treats a missing attribute as zero, so this both creates the item when the key is absent
/// and upgrades an unversioned one: the version lands on the initial one either way.
pub open spec fn counter_update(attribute: Seq<char>, delta: i64) -> ExpressionView {
    ExpressionView {
        text: "ADD #counter :delta, #version :one"@,
        names: seq![("#counter"@, attribute), ("#version"@, DATA_VERSION_ATTRIBUTE@)],
        values: seq![
            (":delta"@, ScalarView::N(text::signed_decimal(delta as int))),
            (":one"@, ScalarView::N(text::decimal(INITIAL_DATA_VERSION as nat))),
        ],
    }
}

/// A request to add to a counter.
#[derive(Debug)]
pub struct CounterRequest {
    pub key: Vec<(String, Scalar)>,
    pub update: Expression,
    /// Always set: the reply is to hold the attributes that the update touched, as they are
    /// afterwards, because the new count is read from them.
    pub return_updated: bool,
}

/// Why adding to the counter in `attribute` of the item under `sk` is refused before it is sent.
pub open spec fn counter_rejection(
    schema: PrimaryIndex,
    sk: Option<Seq<char>>,
    attribute: Seq<char>,
) -> Option<ErrorView> {
    if schema.reserves(attribute) {
        Some(PrimaryIndex::counter_attribute_error(attribute))
    } else if !schema.accepts(sk) {
        Some(schema.sk_error())
    } else {
        None
    }
}

/// The request to add `delta` to the counter in `attribute` of the item under `(pk, sk)`.
pub fn counter_request(
    schema: &PrimaryIndex,
    pk: &str,
    sk: &Option<String>,
    attribute: &str,
    delta: i64,
) -> (request: Result<CounterRequest, Error>)
    ensures
        match request {
            Ok(request) => {
                &&& counter_rejection(*schema, text::chars_of(*sk), attribute@) is None
                &&& values_view(request.key@) == key_attributes(
                    *schema,
                    pk@,
                    schema.sk_attribute(text::chars_of(*sk)),
                )
                &&& request.update@ == counter_update(attribute@, delta)
                &&& request.return_updated
            },
            Err(error) => counter_rejection(*schema, text::chars_of(*sk), attribute@) == Some(
                error@,
            ),
        },
{
    match schema.validate_counter_attribute(attribute) {
        Ok(()) => {},
        Err(error) => {
            return Err(error);
        },
    }
    match schema.resolve_sk(sk) {
        Ok(sk_attr) => {
            let mut update = Expression::new("ADD #counter :delta, #version :one");
            update.name("#counter", attribute);
            update.name("#version", DATA_VERSION_ATTRIBUTE);
            update.value(":delta", Scalar::N(i64_text(delta)));
            update.value(":one", Scalar::N(u64_text(INITIAL_DATA_VERSION)));
            assert(update@ =~= counter_update(attribute@, delta));
            Ok(
                CounterRequest {
                    key: primary_key(schema, pk, &sk_attr),
                    update,
                    return_updated: true,
                },
            )
        },
        Err(error) => Err(error),
    }
}

// ---------------------------------------------------------------------------------------------
// Queries
// ---------------------------------------------------------------------------------------------

/// A query of the base table or of an index.
#[derive(Debug)]
pub struct QueryRequest {
    /// The name of the index, or `None` to query the base table.
    pub index_name: Option<String>,
    pub key_condition: Expression,
}

/// The key condition of a query that is not refused: the partition key, and the condition on the
/// sort key if there is one.
pub open spec fn query_expression(
    schema: PrimaryIndex,
    index: AnyIndex,
    pk: Seq<char>,
    condition: Option<SortKeyCondition>,
) -> ExpressionView {
    let text = "#pk = :pk"@;
    let names = seq![("#pk"@, index.pk_name(schema))];
    let values = seq![(":pk"@, ScalarView::S(pk))];
    match (index.sk_name(), condition) {
        (Some(name), Some(SortKeyCondition::Prefix(prefix))) => ExpressionView {
            text: text + " AND begins_with(#sk, :sk_value)"@,
            names: names.push(("#sk"@, name)),
            values: values.push((":sk_value"@, ScalarView::S(prefix@))),
        },
        (Some(name), Some(SortKeyCondition::Between(low, high))) => ExpressionView {
            text: text + " AND #sk BETWEEN :sk_low AND :sk_high"@,
            names: names.push(("#sk"@, name)),
            values: values.push((":sk_low"@, ScalarView::S(low@))).push(
                (":sk_high"@, ScalarView::S(high@)),
            ),
        },
        _ => ExpressionView { text, names, values },
    }
}

/// The query for the items under `pk` in `index`, narrowed by `sk_condition` if it is given.
///
/// [`Error::InvalidRequest`] if `sk_condition` is given but `index` has no sort key,
/// [`Error::Unsupported`] if the condition isn't implemented.
pub fn query_request(
    schema: &PrimaryIndex,
    index: &AnyIndex,
    pk: &str,
    sk_condition: &Option<SortKeyCondition>,
) -> (request: Result<QueryRequest, Error>)
    ensures
        match request {
            Ok(request) => {
                &&& schema::query_rejection(*index, *sk_condition, "AwsDynamoDb"@) is None
                &&& text::chars_of(request.index_name) == index.name_of()
                &&& request.key_condition@ == query_expression(
                    *schema,
                    *index,
                    pk@,
                    *sk_condition,
                )
            },
            Err(error) => schema::query_rejection(*index, *sk_condition, "AwsDynamoDb"@) == Some(
                error@,
            ),
        },
{
    match check_query(index, sk_condition, "AwsDynamoDb") {
        Ok(()) => {},
        Err(error) => {
            return Err(error);
        },
    }
    let mut key_condition = Expression::new("#pk = :pk");
    key_condition.name("#pk", index.pk_identifier(schema));
    key_condition.value(":pk", Scalar::S(pk.to_string()));
    if let (Some(name), Some(condition)) = (index.sk_identifier(), sk_condition) {
        key_condition.name("#sk", name);
        match condition {
            SortKeyCondition::Prefix(prefix) => {
                key_condition.append(" AND begins_with(#sk, :sk_value)");
                key_condition.value(":sk_value", Scalar::S(prefix.clone()));
            },
            SortKeyCondition::Between(low, high) => {
                key_condition.append(" AND #sk BETWEEN :sk_low AND :sk_high");
                key_condition.value(":sk_low", Scalar::S(low.clone()));
                key_condition.value(":sk_high", Scalar::S(high.clone()));
            },
            _ => {},
        }
    }
    let index_name = match index.index_name() {
        Some(name) => Some(name.to_string()),
        None => None,
    };
    assert(key_condition@ =~= query_expression(*schema, *index, pk@, *sk_condition));
    Ok(QueryRequest { index_name, key_condition })
}

} // verus!
