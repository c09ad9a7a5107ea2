//! What the replies of the service are read as, and how errors are worded.

use crate::aws::item::{AttributeView, ScalarView};
use crate::aws::reply;
use crate::aws::reply::{Page, PageOutcome, PageView, QueryPages};
use crate::aws::request;
use crate::container::Container;
use crate::decode;
use crate::error::{Error, ErrorView};
use crate::schema::{PrimaryIndex, SortKeyCondition};
use crate::text;
use vstd::prelude::*;

verus! {

// ---------------------------------------------------------------------------------------------
// Versions and counts
// ---------------------------------------------------------------------------------------------

/// The version of an item is the number that it carries under the name for it, as far as that is a
/// version, and zero where it carries no number there.
pub proof fn law_the_stored_version_is_the_number_carried<V>(
    item: Map<Seq<char>, AttributeView<V>>,
    n: Seq<char>,
)
    ensures
        !item.contains_key("data_version"@) ==> reply::stored_version(item) == Some(0u64),
        item.contains_key("data_version"@) && !(item["data_version"@] is Scalar
            && item["data_version"@]->Scalar_0 is N) ==> reply::stored_version(item) == Some(0u64),
        item.contains_key("data_version"@) && item["data_version"@] == AttributeView::<V>::Scalar(
            ScalarView::N(n),
        ) ==> reply::stored_version(item) == text::parsed_u64(n) && reply::number_in(
            item,
            "data_version"@,
        ) == Some(n),
{
}

/// The new count is the number that comes back under the counter's name; what is no `i64`, or no
/// number, is reported.
pub proof fn law_the_count_is_the_number_returned<V>(
    pk: Seq<char>,
    attribute: Seq<char>,
    attributes: Map<Seq<char>, AttributeView<V>>,
    n: Seq<char>,
    shown: Seq<char>,
)
    ensures
        ({
            let count = reply::returned_count(pk, attribute, attributes, shown);
            let numeric = attributes.contains_key(attribute) && attributes[attribute]
                == AttributeView::<V>::Scalar(ScalarView::N(n));
            let number = attributes.contains_key(attribute) && attributes[attribute] is Scalar
                && attributes[attribute]->Scalar_0 is N;
            &&& numeric && text::parsed_i64(n) is Some ==> count == Ok::<i64, ErrorView>(
                text::parsed_i64(n)->Some_0,
            )
            &&& numeric && text::parsed_i64(n) is None ==> count == Err::<i64, ErrorView>(
                ErrorView::Serialization(
                    "Counter "@ + text::quoted(attribute) + " for pk="@ + pk
                        + " is not an i64: "@ + text::i64_parse_error(n),
                ),
            )
            &&& !number ==> count == Err::<i64, ErrorView>(
                ErrorView::Service(
                    "DynamoDB UpdateItem did not return a numeric "@ + text::quoted(attribute)
                        + " for pk="@ + pk + ": "@ + shown,
                ),
            )
        }),
{
}

// ---------------------------------------------------------------------------------------------
// Pages
// ---------------------------------------------------------------------------------------------

/// The first row that cannot be deserialized is the one whose reason is reported.
pub proof fn law_the_first_undecodable_row_is_reported<T>(
    rows: Seq<Result<Container<T>, String>>,
    at: int,
)
    requires
        0 <= at <= rows.len(),
        forall|i: int| 0 <= i < at ==> (#[trigger] rows[i]) is Ok,
    ensures
        at == rows.len() ==> decode::first_reason(rows) is None,
        at < rows.len() && rows[at] is Err ==> decode::first_reason(rows) == Some(
            rows[at]->Err_0@,
        ),
    decreases at,
{
    if at > 0 {
        assert(rows[0] is Ok);
        let rest = rows.drop_first();
        assert forall|i: int| 0 <= i < at - 1 implies (#[trigger] rest[i]) is Ok by {
            assert(rest[i] == rows[i + 1]);
        }
        law_the_first_undecodable_row_is_reported(rest, at - 1);
    }
}

/// A page adds the version and the payload of each of its rows, in their order, behind the rows
/// that came before; the query goes on at its continuation key, and is done without one. It fails
/// with a request that fails, and with a row that cannot be deserialized.
pub proof fn law_a_page_adds_its_rows<T, K>(
    rows: Seq<(u64, T)>,
    pk: Seq<char>,
    page: Page<T, K>,
    reason: String,
    i: int,
)
    ensures
        reply::paged::<T, K>(rows, pk, Err(reason)) == PageView::<T, K>::Failed(
            ErrorView::Service("DynamoDB Query failed for pk="@ + pk + ": "@ + reason@),
        ),
        decode::first_reason(page.rows@) matches Some(why) ==> reply::paged(rows, pk, Ok(page))
            == PageView::<T, K>::Failed(
            ErrorView::Serialization("Failed to deserialize item for pk="@ + pk + ": "@ + why),
        ),
        decode::first_reason(page.rows@) is None && page.continuation is Some ==> reply::paged(
            rows,
            pk,
            Ok(page),
        ) == PageView::<T, K>::More(
            rows + reply::decoded(page.rows@),
            page.continuation->Some_0,
        ),
        decode::first_reason(page.rows@) is None && page.continuation is None ==> reply::paged(
            rows,
            pk,
            Ok(page),
        ) == PageView::<T, K>::Done(rows + reply::decoded(page.rows@)),
        reply::decoded(page.rows@).len() == page.rows@.len(),
        0 <= i < page.rows@.len() ==> reply::decoded(page.rows@)[i] == page.rows@[i]->Ok_0@,
{
    reveal_strlit("DynamoDB ");
    reveal_strlit("Query");
    reveal_strlit(" failed for pk=");
    reveal_strlit("DynamoDB Query failed for pk=");
    assert("DynamoDB Query failed for pk="@ =~= "DynamoDB "@ + "Query"@ + " failed for pk="@);
    reveal_strlit("Failed to deserialize ");
    reveal_strlit("item");
    reveal_strlit(" for pk=");
    reveal_strlit("Failed to deserialize item for pk=");
    assert("Failed to deserialize item for pk="@ =~= "Failed to deserialize "@ + "item"@
        + " for pk="@);
}

/// How a query goes on is seen as what it says.
pub proof fn law_pages_are_seen_as_they_are<T, K>(
    pages: QueryPages<T>,
    key: K,
    rows: Vec<(u64, T)>,
    error: Error,
)
    ensures
        PageOutcome::More(pages, key)@ == PageView::More(pages@, key),
        PageOutcome::<T, K>::Done(rows)@ == PageView::<T, K>::Done(rows@),
        PageOutcome::<T, K>::Failed(error)@ == PageView::<T, K>::Failed(error@),
{
}

// ---------------------------------------------------------------------------------------------
// The wording of errors
// ---------------------------------------------------------------------------------------------

/// An error is shown with the key that it is about, and a conflict with the version that was
/// expected; the others are shown as their message.
pub proof fn law_errors_name_their_key(
    pk: Seq<char>,
    sk: Option<Seq<char>>,
    version: u64,
    message: Seq<char>,
)
    ensures
        (ErrorView::AlreadyExists { pk, sk }).text() == "Item already exists for pk="@ + pk + ", sk="@
            + text::quoted_option(sk),
        (ErrorView::Conflict { pk, sk, expected_version: version }).text()
            == "Optimistic concurrency conflict for pk="@ + pk + ", sk="@ + text::quoted_option(sk)
            + ": expected version "@ + text::decimal(version as nat),
        ErrorView::InvalidRequest(message).text() == message,
        ErrorView::Unsupported(message).text() == message,
        ErrorView::Serialization(message).text() == message,
        ErrorView::Service(message).text() == message,
        (ErrorView::AlreadyExists { pk, sk }).is_lost_race(),
        (ErrorView::Conflict { pk, sk, expected_version: version }).is_lost_race(),
        !ErrorView::InvalidRequest(message).is_lost_race(),
        !ErrorView::Unsupported(message).is_lost_race(),
        !ErrorView::Serialization(message).is_lost_race(),
        !ErrorView::Service(message).is_lost_race(),
        crate::error::zero_version_error() == ErrorView::InvalidRequest(
            "put_item() does not accept version=0. Use put_item_unconditional()"@,
        ),
        crate::error::no_sort_key_error() == ErrorView::InvalidRequest(
            "a sort key condition was provided but the index has no sort key"@,
        ),
        PrimaryIndex::counter_attribute_error(message) == ErrorView::InvalidRequest(
            "a counter cannot be kept in the reserved attribute "@ + text::quoted(message),
        ),
{
}

/// An error is seen as what it holds, and so is a result.
pub proof fn law_errors_are_seen_as_they_are<T>(
    pk: String,
    sk: String,
    version: u64,
    message: String,
    value: T,
    error: Error,
)
    ensures
        (Error::AlreadyExists { pk, sk: Some(sk) })@ == (ErrorView::AlreadyExists {
            pk: pk@,
            sk: Some(sk@),
        }),
        (Error::AlreadyExists { pk, sk: None })@ == (ErrorView::AlreadyExists { pk: pk@, sk: None }),
        (Error::Conflict { pk, sk: Some(sk), expected_version: version })@ == (ErrorView::Conflict {
            pk: pk@,
            sk: Some(sk@),
            expected_version: version,
        }),
        (Error::Conflict { pk, sk: None, expected_version: version })@ == (ErrorView::Conflict {
            pk: pk@,
            sk: None,
            expected_version: version,
        }),
        Error::InvalidRequest(message)@ == ErrorView::InvalidRequest(message@),
        Error::Unsupported(message)@ == ErrorView::Unsupported(message@),
        Error::Serialization(message)@ == ErrorView::Serialization(message@),
        Error::Service(message)@ == ErrorView::Service(message@),
        crate::error::outcome(Ok::<T, Error>(value)) == Ok::<T, ErrorView>(value),
        crate::error::outcome(Err::<T, Error>(error)) == Err::<T, ErrorView>(error@),
{
}

/// A string is shown between double quotes, as it is where it is printable ASCII without double
/// quotes and backslashes; an optional one as `Some` of that, or as `None`.
pub proof fn law_strings_are_shown_between_quotes(s: Seq<char>)
    ensures
        (forall|i: int|
            0 <= i < s.len() ==> ' ' <= #[trigger] s[i] && s[i] <= '~' && s[i] != '"' && s[i]
                != '\\') ==> text::quoted(s) == seq!['"'] + s + seq!['"'],
        text::quoted_option(Some(s)) == "Some("@ + text::quoted(s) + ")"@,
        text::quoted_option(None) == "None"@,
{
}

/// A condition is shown by its name and its values.
pub proof fn law_conditions_are_shown_by_name(value: String, low: String, high: String)
    ensures
        SortKeyCondition::Equals(value).shown() == "Equals("@ + text::quoted(value@) + ")"@,
        SortKeyCondition::LessThan(value).shown() == "LessThan("@ + text::quoted(value@) + ")"@,
        SortKeyCondition::LessThanOrEqual(value).shown() == "LessThanOrEqual("@ + text::quoted(
            value@,
        ) + ")"@,
        SortKeyCondition::GreaterThan(value).shown() == "GreaterThan("@ + text::quoted(value@)
            + ")"@,
        SortKeyCondition::GreaterThanOrEqual(value).shown() == "GreaterThanOrEqual("@
            + text::quoted(value@) + ")"@,
        SortKeyCondition::Between(low, high).shown() == "Between("@ + text::quoted(low@) + ", "@
            + text::quoted(high@) + ")"@,
        SortKeyCondition::Prefix(value).shown() == "Prefix("@ + text::quoted(value@) + ")"@,
{
}

/// Failures name the operation, the key and the reason.
pub proof fn law_failures_name_operation_key_and_reason(
    operation: Seq<char>,
    subject: Seq<char>,
    pk: Seq<char>,
    sk: Option<Seq<char>>,
    reason: Seq<char>,
)
    ensures
        reply::failed_on_item(operation, pk, sk, reason) == ErrorView::Service(
            "DynamoDB "@ + operation + " failed for pk="@ + pk + ", sk="@ + text::quoted_option(sk)
                + ": "@ + reason,
        ),
        reply::failed_under(operation, pk, reason) == ErrorView::Service(
            "DynamoDB "@ + operation + " failed for pk="@ + pk + ": "@ + reason,
        ),
        reply::not_a_version(pk, reason) == ErrorView::Serialization(
            "Stored "@ + "data_version"@ + " for pk="@ + pk + " is not a u64: "@
                + text::u64_parse_error(reason),
        ),
        request::unserializable_item(pk, reason) == ErrorView::Serialization(
            "Failed to serialize item for pk="@ + pk + ": "@ + reason,
        ),
        decode::undecodable_item(subject, pk, sk, reason) == ErrorView::Serialization(
            "Failed to deserialize "@ + subject + " for pk="@ + pk + ", sk="@
                + text::quoted_option(sk) + ": "@ + reason,
        ),
        decode::undecodable_row(subject, pk, reason) == ErrorView::Serialization(
            "Failed to deserialize "@ + subject + " for pk="@ + pk + ": "@ + reason,
        ),
{
}

} // verus!
