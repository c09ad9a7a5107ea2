//! What keys, schemas, indexes and conditions on a sort key are.

use crate::error::ErrorView;
use crate::mock;
use crate::schema;
use crate::schema::{
    AnyIndex, GlobalSecondaryIndex, LocalSecondaryIndex, PrimaryIndex, SortKeyCondition,
    DATA_VERSION_ATTRIBUTE, INITIAL_DATA_VERSION,
};
use crate::text;
use vstd::prelude::*;

verus! {

// ---------------------------------------------------------------------------------------------
// Keys
// ---------------------------------------------------------------------------------------------

/// A key holds its table, its partition key and its sort key, so two keys are the same only if
/// all three are: no table shares a key with another.
pub proof fn law_keys_tell_their_parts_apart(
    table: Seq<char>,
    pk: Seq<char>,
    sk: Option<Seq<char>>,
    other_table: Seq<char>,
    other_pk: Seq<char>,
    other_sk: Option<Seq<char>>,
)
    ensures
        mock::key_of(table, pk, sk).table == table,
        mock::key_of(table, pk, sk).pk == pk,
        mock::key_of(table, pk, sk).sk == sk,
        mock::key_of(table, pk, sk) == mock::key_of(other_table, other_pk, other_sk) <==> table
            == other_table && pk == other_pk && sk == other_sk,
{
}

/// An optional text is seen as its characters, and an absent one as absent; an empty one is not
/// absent.
pub proof fn law_optional_texts_are_their_characters(s: String, borrowed: &str, value: String)
    ensures
        text::chars_of(Some(s)) == Some(s@),
        text::chars_of(None) == None::<Seq<char>>,
        text::chars_of_str(Some(borrowed)) == Some(borrowed@),
        text::chars_of_str(None) == None::<Seq<char>>,
        schema::attribute_of(Some((borrowed, value))) == Some((borrowed@, value@)),
        schema::attribute_of(None) == None::<(Seq<char>, Seq<char>)>,
{
}

/// The version that items start at, and the attribute that it is stored under.
pub proof fn law_versions_start_at_one()
    ensures
        INITIAL_DATA_VERSION == 1,
        DATA_VERSION_ATTRIBUTE@ == "data_version"@,
{
}

// ---------------------------------------------------------------------------------------------
// Schemas
// ---------------------------------------------------------------------------------------------

/// A sort key is accepted exactly when it is given just in case the table has one, it then goes
/// under the name that the table has for it, and otherwise the error says which of the two is
/// amiss.
pub proof fn law_sort_keys_are_given_exactly_when_the_table_has_one(
    index: PrimaryIndex,
    sk: Option<Seq<char>>,
)
    ensures
        index.accepts(sk) <==> (index.keys.sk_identifier is Some <==> sk is Some),
        index.keys.sk_identifier is Some && sk is Some ==> index.sk_attribute(sk) == Some(
            (index.keys.sk_identifier->Some_0@, sk->Some_0),
        ),
        index.keys.sk_identifier is None || sk is None ==> index.sk_attribute(sk) is None,
        index.keys.sk_identifier is Some ==> index.sk_error() == ErrorView::InvalidRequest(
            "PrimaryIndex has a sort key, but none was provided"@,
        ),
        index.keys.sk_identifier is None ==> index.sk_error() == ErrorView::InvalidRequest(
            "a sort key was provided, but PrimaryIndex has none"@,
        ),
{
}

/// A counter can be kept in every attribute but those of the primary key and the version.
pub proof fn law_key_attributes_and_the_version_are_reserved(
    index: PrimaryIndex,
    attribute: Seq<char>,
)
    ensures
        index.reserves(attribute) <==> attribute == index.keys.pk_identifier@ || attribute
            == "data_version"@ || (index.keys.sk_identifier is Some && attribute
            == index.keys.sk_identifier->Some_0@),
{
}

/// The base table is queried without a name and a secondary index under its own; an index has its
/// own keys, except that an LSI shares the partition key of the base table.
pub proof fn law_indexes_have_their_names_and_keys(
    primary: PrimaryIndex,
    gsi: GlobalSecondaryIndex,
    lsi: LocalSecondaryIndex,
    table: PrimaryIndex,
)
    ensures
        AnyIndex::Primary(primary).name_of() is None,
        AnyIndex::Gsi(gsi).name_of() == Some(gsi.name@),
        AnyIndex::Lsi(lsi).name_of() == Some(lsi.name@),
        AnyIndex::Primary(primary).pk_name(table) == primary.keys.pk_identifier@,
        AnyIndex::Gsi(gsi).pk_name(table) == gsi.keys.pk_identifier@,
        AnyIndex::Lsi(lsi).pk_name(table) == table.keys.pk_identifier@,
        primary.keys.sk_identifier matches Some(sk) ==> AnyIndex::Primary(primary).sk_name()
            == Some(sk@),
        primary.keys.sk_identifier is None ==> AnyIndex::Primary(primary).sk_name() is None,
        gsi.keys.sk_identifier matches Some(sk) ==> AnyIndex::Gsi(gsi).sk_name() == Some(sk@),
        gsi.keys.sk_identifier is None ==> AnyIndex::Gsi(gsi).sk_name() is None,
        AnyIndex::Lsi(lsi).sk_name() == Some(lsi.sk_identifier@),
{
}

/// Each kind of index becomes the index of that kind.
pub proof fn law_indexes_convert_to_themselves(
    primary: PrimaryIndex,
    gsi: GlobalSecondaryIndex,
    lsi: LocalSecondaryIndex,
)
    ensures
        <AnyIndex as vstd::std_specs::convert::FromSpec<PrimaryIndex>>::obeys_from_spec(),
        <AnyIndex as vstd::std_specs::convert::FromSpec<PrimaryIndex>>::from_spec(primary)
            == AnyIndex::Primary(primary),
        <AnyIndex as vstd::std_specs::convert::FromSpec<GlobalSecondaryIndex>>::obeys_from_spec(),
        <AnyIndex as vstd::std_specs::convert::FromSpec<GlobalSecondaryIndex>>::from_spec(gsi)
            == AnyIndex::Gsi(gsi),
        <AnyIndex as vstd::std_specs::convert::FromSpec<LocalSecondaryIndex>>::obeys_from_spec(),
        <AnyIndex as vstd::std_specs::convert::FromSpec<LocalSecondaryIndex>>::from_spec(lsi)
            == AnyIndex::Lsi(lsi),
{
}

// ---------------------------------------------------------------------------------------------
// Conditions on a sort key
// ---------------------------------------------------------------------------------------------

/// A prefix admits the sort keys that begin with it, two ends those that lie between them, the
/// ends taken in, and no condition admits an item without a sort key. These two are implemented,
/// and no other.
pub proof fn law_conditions_admit_what_they_say(
    prefix: String,
    low: String,
    high: String,
    condition: SortKeyCondition,
    sk: Seq<char>,
)
    ensures
        SortKeyCondition::Prefix(prefix).admits(Some(sk)) <==> prefix@.is_prefix_of(sk),
        SortKeyCondition::Between(low, high).admits(Some(sk)) <==> text::text_le(low@, sk)
            && text::text_le(sk, high@),
        !condition.admits(None),
        condition.is_implemented() <==> condition is Prefix || condition is Between,
{
}

/// A query is refused exactly for a condition on an index without a sort key, whatever the
/// condition, and for one that is not implemented.
pub proof fn law_queries_are_refused_for_their_condition_alone(
    index: AnyIndex,
    condition: SortKeyCondition,
    backend: Seq<char>,
)
    ensures
        schema::query_rejection(index, None, backend) is None,
        index.sk_name() is None ==> schema::query_rejection(index, Some(condition), backend)
            == Some(
            ErrorView::InvalidRequest(
                "a sort key condition was provided but the index has no sort key"@,
            ),
        ),
        index.sk_name() is Some && !(condition is Prefix || condition is Between)
            ==> schema::query_rejection(index, Some(condition), backend) == Some(
            ErrorView::Unsupported(condition.shown() + " is not yet implemented by "@ + backend),
        ),
        index.sk_name() is Some && (condition is Prefix || condition is Between)
            ==> schema::query_rejection(index, Some(condition), backend) is None,
{
}

// ---------------------------------------------------------------------------------------------
// The order of strings
// ---------------------------------------------------------------------------------------------

/// A string comes before those that it is a prefix of, and before those that have a larger
/// character where the two first differ; it comes before no other.
pub proof fn law_strings_are_ordered_by_their_first_difference(
    a: Seq<char>,
    b: Seq<char>,
    at: int,
)
    requires
        0 <= at <= a.len(),
        at <= b.len(),
        forall|i: int| 0 <= i < at ==> a[i] == b[i],
    ensures
        at == a.len() ==> text::text_le(a, b),
        at == b.len() && at < a.len() ==> !text::text_le(a, b),
        at < a.len() && at < b.len() && a[at] != b[at] ==> (text::text_le(a, b) <==> a[at]
            < b[at]),
    decreases at,
{
    if at > 0 {
        let x = a.drop_first();
        let y = b.drop_first();
        assert(a[0] == b[0]);
        assert forall|i: int| 0 <= i < at - 1 implies x[i] == y[i] by {
            assert(x[i] == a[i + 1] && y[i] == b[i + 1]);
        }
        law_strings_are_ordered_by_their_first_difference(x, y, at - 1);
    }
}

// ---------------------------------------------------------------------------------------------
// Numbers as text
// ---------------------------------------------------------------------------------------------

/// A number is written in decimal digits, without zeros in front: the digit of its remainder by
/// ten stands behind the digits of the rest.
pub proof fn law_numbers_are_written_in_decimal(n: nat)
    ensures
        n < 10 ==> text::decimal(n) == seq![(48 + n) as char],
        n >= 10 ==> text::decimal(n) == text::decimal(n / 10) + seq![(48 + n % 10) as char],
        text::signed_decimal(n as int) == text::decimal(n),
        n > 0 ==> text::signed_decimal(-(n as int)) == seq!['-'] + text::decimal(n),
{
    if n >= 10 {
        assert(text::decimal(n / 10).push((48 + n % 10) as char) =~= text::decimal(n / 10) + seq![
            (48 + n % 10) as char,
        ]);
    }
}

} // verus!
