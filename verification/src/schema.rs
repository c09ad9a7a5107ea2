//! Key schemas, the indexes a query can target, and conditions on a sort key.

use crate::error::{Error, ErrorView};
use crate::text;
use crate::text::{borrow_text, has_prefix, is_at_most, quote};
use vstd::prelude::*;
use vstd::string::*;

verus! {

broadcast use vstd::string::group_string_axioms;

/// The `data_version` a newly created item starts at.
///
/// `0` is reserved: it's what a record written before versioning existed reads back as.
pub const INITIAL_DATA_VERSION: u64 = 1;

/// The attribute under which an item's `data_version` is stored.
pub const DATA_VERSION_ATTRIBUTE: &'static str = "data_version";

/// The key attribute names of an index.
#[derive(Debug, Clone, PartialEq, Eq)]
pub struct KeySchema {
    /// Attribute name of the partition key.
    pub pk_identifier: String,
    /// Attribute name of the sort key, if the index has one.
    pub sk_identifier: Option<String>,
}

/// The base table's primary key schema. `keys.sk_identifier` is `None` for a table with a
/// simple primary key (partition key only).
#[derive(Debug, Clone, PartialEq, Eq)]
pub struct PrimaryIndex {
    pub keys: KeySchema,
}

/// A Global Secondary Index.
#[derive(Debug, Clone, PartialEq, Eq)]
pub struct GlobalSecondaryIndex {
    pub name: String,
    pub keys: KeySchema,
}

/// A Local Secondary Index. Always shares the base table's partition key, so only its own
/// sort key attribute name needs to be specified.
#[derive(Debug, Clone, PartialEq, Eq)]
pub struct LocalSecondaryIndex {
    pub name: String,
    pub sk_identifier: String,
}

/// Any index that a query can target.
#[derive(Debug, Clone, PartialEq, Eq)]
pub enum AnyIndex {
    Primary(PrimaryIndex),
    Gsi(GlobalSecondaryIndex),
    Lsi(LocalSecondaryIndex),
}

/// A condition on an index's sort key.
///
/// [`Self::Prefix`] and [`Self::Between`] are implemented by the backends; the others are
/// refused with [`Error::Unsupported`].
#[derive(Debug, Clone, PartialEq, Eq)]
pub enum SortKeyCondition {
    /// `sk = value`
    Equals(String),
    /// `sk < value`
    LessThan(String),
    /// `sk <= value`
    LessThanOrEqual(String),
    /// `sk > value`
    GreaterThan(String),
    /// `sk >= value`
    GreaterThanOrEqual(String),
    /// `sk BETWEEN low AND high`
    Between(String, String),
    /// `begins_with(sk, prefix)`
    Prefix(String),
}

// ---------------------------------------------------------------------------------------------
// The primary key
// ---------------------------------------------------------------------------------------------

/// A sort key attribute as a name and a value, by their characters.
pub open spec fn attribute_of(attribute: Option<(&str, String)>) -> Option<(Seq<char>, Seq<char>)> {
    match attribute {
        Some((name, value)) => Some((name@, value@)),
        None => None,
    }
}

impl PrimaryIndex {
    /// Whether a caller's `sk` is given exactly when the table has a sort key.
    pub open spec fn accepts(&self, sk: Option<Seq<char>>) -> bool {
        self.keys.sk_identifier is Some == sk is Some
    }

    /// The rejection of an `sk` that disagrees with this schema.
    pub open spec fn sk_error(&self) -> ErrorView {
        if self.keys.sk_identifier is Some {
            ErrorView::InvalidRequest("PrimaryIndex has a sort key, but none was provided"@)
        } else {
            ErrorView::InvalidRequest("a sort key was provided, but PrimaryIndex has none"@)
        }
    }

    /// The sort key attribute, as a name and a value, that `sk` stands for in this schema.
    pub open spec fn sk_attribute(&self, sk: Option<Seq<char>>) -> Option<(Seq<char>, Seq<char>)> {
        match (self.keys.sk_identifier, sk) {
            (Some(name), Some(value)) => Some((name@, value)),
            _ => None,
        }
    }

    /// Resolves a caller-supplied `sk` against this schema, returning the sort key's attribute
    /// name paired with the value when the table has one.
    ///
    /// [`Error::InvalidRequest`] if `sk` doesn't match whether the table actually has a sort
    /// key. Every backend routes its key handling through here, so that they agree on what a
    /// well-formed key is.
    pub fn resolve_sk<'a>(&'a self, sk: &Option<String>) -> (resolved: Result<
        Option<(&'a str, String)>,
        Error,
    >)
        ensures
            match resolved {
                Ok(attribute) => self.accepts(text::chars_of(*sk)) && attribute_of(attribute)
                    == self.sk_attribute(text::chars_of(*sk)),
                Err(error) => !self.accepts(text::chars_of(*sk)) && error@ == self.sk_error(),
            },
    {
        match (&self.keys.sk_identifier, sk) {
            (Some(name), Some(value)) => Ok(Some((name.as_str(), value.clone()))),
            (None, None) => Ok(None),
            (Some(_), None) => Err(
                Error::InvalidRequest(
                    "PrimaryIndex has a sort key, but none was provided".to_string(),
                ),
            ),
            (None, Some(_)) => Err(
                Error::InvalidRequest(
                    "a sort key was provided, but PrimaryIndex has none".to_string(),
                ),
            ),
        }
    }

    /// Whether `attribute` is taken: it is part of the primary key, or holds the version.
    pub open spec fn reserves(&self, attribute: Seq<char>) -> bool {
        ||| attribute == self.keys.pk_identifier@
        ||| Some(attribute) == text::chars_of(self.keys.sk_identifier)
        ||| attribute == DATA_VERSION_ATTRIBUTE@
    }

    /// The rejection of a counter that would be kept in a reserved attribute.
    pub open spec fn counter_attribute_error(attribute: Seq<char>) -> ErrorView {
        ErrorView::InvalidRequest(
            "a counter cannot be kept in the reserved attribute "@ + text::quoted(attribute),
        )
    }

    /// Checks that a counter may be kept in `attribute`: adding to a key attribute, or to the
    /// version that every write maintains, is a caller bug.
    pub fn validate_counter_attribute(&self, attribute: &str) -> (valid: Result<(), Error>)
        ensures
            match valid {
                Ok(()) => !self.reserves(attribute@),
                Err(error) => self.reserves(attribute@) && error@ == Self::counter_attribute_error(
                    attribute@,
                ),
            },
    {
        let name = attribute.to_string();
        let is_sk = match &self.keys.sk_identifier {
            Some(sk_identifier) => name == *sk_identifier,
            None => false,
        };
        if name == self.keys.pk_identifier || is_sk || name == DATA_VERSION_ATTRIBUTE.to_string() {
            let mut message = "a counter cannot be kept in the reserved attribute ".to_string();
            message.append(quote(attribute).as_str());
            return Err(Error::InvalidRequest(message));
        }
        Ok(())
    }
}

// ---------------------------------------------------------------------------------------------
// Indexes
// ---------------------------------------------------------------------------------------------

impl From<PrimaryIndex> for AnyIndex {
    fn from(index: PrimaryIndex) -> (any: Self) {
        AnyIndex::Primary(index)
    }
}

impl vstd::std_specs::convert::FromSpecImpl<PrimaryIndex> for AnyIndex {
    open spec fn obeys_from_spec() -> bool {
        true
    }

    open spec fn from_spec(index: PrimaryIndex) -> Self {
        AnyIndex::Primary(index)
    }
}

impl From<GlobalSecondaryIndex> for AnyIndex {
    fn from(index: GlobalSecondaryIndex) -> (any: Self) {
        AnyIndex::Gsi(index)
    }
}

impl vstd::std_specs::convert::FromSpecImpl<GlobalSecondaryIndex> for AnyIndex {
    open spec fn obeys_from_spec() -> bool {
        true
    }

    open spec fn from_spec(index: GlobalSecondaryIndex) -> Self {
        AnyIndex::Gsi(index)
    }
}

impl From<LocalSecondaryIndex> for AnyIndex {
    fn from(index: LocalSecondaryIndex) -> (any: Self) {
        AnyIndex::Lsi(index)
    }
}

impl vstd::std_specs::convert::FromSpecImpl<LocalSecondaryIndex> for AnyIndex {
    open spec fn obeys_from_spec() -> bool {
        true
    }

    open spec fn from_spec(index: LocalSecondaryIndex) -> Self {
        AnyIndex::Lsi(index)
    }
}

impl AnyIndex {
    /// The name under which the index is queried; the base table has none.
    pub open spec fn name_of(&self) -> Option<Seq<char>> {
        match self {
            AnyIndex::Primary(_) => None,
            AnyIndex::Gsi(index) => Some(index.name@),
            AnyIndex::Lsi(index) => Some(index.name@),
        }
    }

    /// The attribute name of the partition key, over a base table keyed by `primary_index`.
    pub open spec fn pk_name(&self, primary_index: PrimaryIndex) -> Seq<char> {
        match self {
            AnyIndex::Primary(index) => index.keys.pk_identifier@,
            AnyIndex::Gsi(index) => index.keys.pk_identifier@,
            AnyIndex::Lsi(_) => primary_index.keys.pk_identifier@,
        }
    }

    /// The attribute name of the sort key, if the index has one.
    pub open spec fn sk_name(&self) -> Option<Seq<char>> {
        match self {
            AnyIndex::Primary(index) => text::chars_of(index.keys.sk_identifier),
            AnyIndex::Gsi(index) => text::chars_of(index.keys.sk_identifier),
            AnyIndex::Lsi(index) => Some(index.sk_identifier@),
        }
    }

    /// DynamoDB index name to pass to Query, or `None` to query the base table.
    pub fn index_name(&self) -> (name: Option<&str>)
        ensures
            text::chars_of_str(name) == self.name_of(),
    {
        match self {
            AnyIndex::Primary(_) => None,
            AnyIndex::Gsi(index) => Some(index.name.as_str()),
            AnyIndex::Lsi(index) => Some(index.name.as_str()),
        }
    }

    /// Attribute name of this index's partition key. LSIs always share the base table's
    /// partition key, so `primary_index` is needed to resolve it in that case.
    pub fn pk_identifier<'a>(&'a self, primary_index: &'a PrimaryIndex) -> (name: &'a str)
        ensures
            name@ == self.pk_name(*primary_index),
    {
        match self {
            AnyIndex::Primary(index) => index.keys.pk_identifier.as_str(),
            AnyIndex::Gsi(index) => index.keys.pk_identifier.as_str(),
            AnyIndex::Lsi(_) => primary_index.keys.pk_identifier.as_str(),
        }
    }

    /// Attribute name of this index's sort key, if it has one. Always `Some` for LSIs; the
    /// primary index and GSIs may have been defined without one.
    pub fn sk_identifier(&self) -> (name: Option<&str>)
        ensures
            text::chars_of_str(name) == self.sk_name(),
    {
        match self {
            AnyIndex::Primary(index) => borrow_text(&index.keys.sk_identifier),
            AnyIndex::Gsi(index) => borrow_text(&index.keys.sk_identifier),
            AnyIndex::Lsi(index) => Some(index.sk_identifier.as_str()),
        }
    }
}

// ---------------------------------------------------------------------------------------------
// Sort key conditions
// ---------------------------------------------------------------------------------------------

impl SortKeyCondition {
    /// Whether the backends implement this condition.
    pub open spec fn is_implemented(&self) -> bool {
        self is Prefix || self is Between
    }

    /// Whether a sort key meets an implemented condition. An item without the sort key never
    /// does.
    pub open spec fn admits(&self, sk: Option<Seq<char>>) -> bool {
        match (self, sk) {
            (SortKeyCondition::Prefix(prefix), Some(sk)) => prefix@.is_prefix_of(sk),
            (SortKeyCondition::Between(low, high), Some(sk)) => text::text_le(low@, sk)
                && text::text_le(sk, high@),
            _ => false,
        }
    }

    /// The condition as `{:?}` writes it.
    pub open spec fn shown(&self) -> Seq<char> {
        match self {
            SortKeyCondition::Equals(value) => "Equals("@ + text::quoted(value@) + ")"@,
            SortKeyCondition::LessThan(value) => "LessThan("@ + text::quoted(value@) + ")"@,
            SortKeyCondition::LessThanOrEqual(value) => "LessThanOrEqual("@ + text::quoted(value@)
                + ")"@,
            SortKeyCondition::GreaterThan(value) => "GreaterThan("@ + text::quoted(value@) + ")"@,
            SortKeyCondition::GreaterThanOrEqual(value) => "GreaterThanOrEqual("@ + text::quoted(
                value@,
            ) + ")"@,
            SortKeyCondition::Between(low, high) => "Between("@ + text::quoted(low@) + ", "@
                + text::quoted(high@) + ")"@,
            SortKeyCondition::Prefix(prefix) => "Prefix("@ + text::quoted(prefix@) + ")"@,
        }
    }

    /// The refusal of this condition by `backend`.
    pub open spec fn unimplemented_error(&self, backend: Seq<char>) -> ErrorView {
        ErrorView::Unsupported(self.shown() + " is not yet implemented by "@ + backend)
    }

    /// Whether a sort key meets this condition.
    pub fn holds(&self, sk: Option<&str>) -> (met: bool)
        requires
            self.is_implemented(),
        ensures
            met == self.admits(text::chars_of_str(sk)),
    {
        match (self, sk) {
            (SortKeyCondition::Prefix(prefix), Some(sk)) => has_prefix(sk, prefix.as_str()),
            (SortKeyCondition::Between(low, high), Some(sk)) => is_at_most(low.as_str(), sk)
                && is_at_most(sk, high.as_str()),
            _ => false,
        }
    }

    /// The condition as `{:?}` writes it.
    pub fn show(&self) -> (shown: String)
        ensures
            shown@ == self.shown(),
    {
        match self {
            SortKeyCondition::Equals(value) => show_variant("Equals(", value),
            SortKeyCondition::LessThan(value) => show_variant("LessThan(", value),
            SortKeyCondition::LessThanOrEqual(value) => show_variant("LessThanOrEqual(", value),
            SortKeyCondition::GreaterThan(value) => show_variant("GreaterThan(", value),
            SortKeyCondition::GreaterThanOrEqual(value) => show_variant(
                "GreaterThanOrEqual(",
                value,
            ),
            SortKeyCondition::Between(low, high) => {
                let mut shown = "Between(".to_string();
                shown.append(quote(low.as_str()).as_str());
                shown.append(", ");
                shown.append(quote(high.as_str()).as_str());
                shown.append(")");
                shown
            },
            SortKeyCondition::Prefix(prefix) => show_variant("Prefix(", prefix),
        }
    }
}

fn show_variant(opening: &str, value: &String) -> (shown: String)
    ensures
        shown@ == opening@ + text::quoted(value@) + ")"@,
{
    let mut shown = opening.to_string();
    shown.append(quote(value.as_str()).as_str());
    shown.append(")");
    shown
}

/// Why a backend refuses a query before it looks at any item: the condition is on a sort key
/// that the index does not have, or is not implemented.
pub open spec fn query_rejection(
    index: AnyIndex,
    condition: Option<SortKeyCondition>,
    backend: Seq<char>,
) -> Option<ErrorView> {
    match condition {
        None => None,
        Some(condition) => if index.sk_name() is None {
            Some(crate::error::no_sort_key_error())
        } else if !condition.is_implemented() {
            Some(condition.unimplemented_error(backend))
        } else {
            None
        },
    }
}

/// Checks a query's condition against the index it is on, for the backend named `backend`.
pub fn check_query(index: &AnyIndex, condition: &Option<SortKeyCondition>, backend: &str) -> (checked:
    Result<(), Error>)
    ensures
        match checked {
            Ok(()) => query_rejection(*index, *condition, backend@) is None,
            Err(error) => query_rejection(*index, *condition, backend@) == Some(error@),
        },
{
    match condition {
        None => Ok(()),
        Some(condition) => {
            if index.sk_identifier().is_none() {
                return Err(Error::sk_condition_without_sort_key());
            }
            match condition {
                SortKeyCondition::Prefix(_) => Ok(()),
                SortKeyCondition::Between(_, _) => Ok(()),
                _ => {
                    let mut message = condition.show();
                    message.append(" is not yet implemented by ");
                    message.append(backend);
                    Err(Error::Unsupported(message))
                },
            }
        },
    }
}

} // verus!
