//! Replies: what each operation returns, once the service has answered or failed to.

use crate::aws::item::{AttributeValue, AttributeView, Item, Scalar, ScalarView};
use crate::aws::request::WriteCondition;
use crate::container::Container;
use crate::decode;
use crate::decode::{decode_item, decode_rows};
use crate::error::{Error, ErrorView};
use crate::schema::DATA_VERSION_ATTRIBUTE;
use crate::text;
use crate::text::{clone_text, parse_i64, parse_u64, quote, quote_option};
use vstd::prelude::*;
use vstd::string::*;

verus! {

broadcast use vstd::string::group_string_axioms;

/// The failure of `operation` on the item under `(pk, sk)` for `reason`.
pub open spec fn failed_on_item(
    operation: Seq<char>,
    pk: Seq<char>,
    sk: Option<Seq<char>>,
    reason: Seq<char>,
) -> ErrorView {
    ErrorView::Service(
        "DynamoDB "@ + operation + " failed for pk="@ + pk + ", sk="@ + text::quoted_option(sk)
            + ": "@ + reason,
    )
}

/// The failure of `operation` under the partition key `pk` for `reason`.
pub open spec fn failed_under(operation: Seq<char>, pk: Seq<char>, reason: Seq<char>) -> ErrorView {
    ErrorView::Service("DynamoDB "@ + operation + " failed for pk="@ + pk + ": "@ + reason)
}

pub(crate) fn item_failure(operation: &str, pk: &str, sk: &Option<String>, reason: &str) -> (error:
    Error)
    ensures
        error@ == failed_on_item(operation@, pk@, text::chars_of(*sk), reason@),
{
    let mut message = "DynamoDB ".to_string();
    message.append(operation);
    message.append(" failed for pk=");
    message.append(pk);
    message.append(", sk=");
    message.append(quote_option(sk).as_str());
    message.append(": ");
    message.append(reason);
    Error::Service(message)
}

fn partition_failure(operation: &str, pk: &str, reason: &str) -> (error: Error)
    ensures
        error@ == failed_under(operation@, pk@, reason@),
{
    let mut message = "DynamoDB ".to_string();
    message.append(operation);
    message.append(" failed for pk=");
    message.append(pk);
    message.append(": ");
    message.append(reason);
    Error::Service(message)
}

// ---------------------------------------------------------------------------------------------
// Reads and deletions
// ---------------------------------------------------------------------------------------------

/// What reading the item under `(pk, sk)` returns. `reply` is the failure of the request, or what
/// deserializing the item, if there is one, came to.
pub fn get_item_reply<T>(
    pk: &str,
    sk: &Option<String>,
    reply: Result<Option<Result<Container<T>, String>>, String>,
) -> (read: Result<Option<(u64, T)>, Error>)
    ensures
        match reply {
            Ok(None) => read == Ok::<Option<(u64, T)>, Error>(None),
            Ok(Some(Ok(container))) => read == Ok::<Option<(u64, T)>, Error>(Some(container@)),
            Ok(Some(Err(reason))) => match read {
                Ok(_) => false,
                Err(error) => error@ == decode::undecodable_item(
                    "item"@,
                    pk@,
                    text::chars_of(*sk),
                    reason@,
                ),
            },
            Err(reason) => match read {
                Ok(_) => false,
                Err(error) => error@ == failed_on_item(
                    "GetItem"@,
                    pk@,
                    text::chars_of(*sk),
                    reason@,
                ),
            },
        },
{
    match reply {
        Ok(found) => decode_item("item", pk, sk, found),
        Err(reason) => Err(item_failure("GetItem", pk, sk, reason.as_str())),
    }
}

/// What deleting the item under `(pk, sk)` returns. Deleting an absent item succeeds, as far as
/// the service is concerned.
pub fn delete_item_reply(pk: &str, sk: &Option<String>, reply: Result<(), String>) -> (deleted:
    Result<(), Error>)
    ensures
        match (reply, deleted) {
            (Ok(()), Ok(())) => true,
            (Err(reason), Err(error)) => error@ == failed_on_item(
                "DeleteItem"@,
                pk@,
                text::chars_of(*sk),
                reason@,
            ),
            _ => false,
        },
{
    match reply {
        Ok(()) => Ok(()),
        Err(reason) => Err(item_failure("DeleteItem", pk, sk, reason.as_str())),
    }
}

// ---------------------------------------------------------------------------------------------
// The stored version
// ---------------------------------------------------------------------------------------------

/// The text of the number in `attribute`, if it is a number.
pub open spec fn number_in<V>(
    attributes: Map<Seq<char>, AttributeView<V>>,
    attribute: Seq<char>,
) -> Option<Seq<char>> {
    if attributes.contains_key(attribute) {
        match attributes[attribute] {
            AttributeView::Scalar(ScalarView::N(n)) => Some(n),
            _ => None,
        }
    } else {
        None
    }
}

/// The version that an item is stored at. One that carries no version predates versioning, and
/// reads as version zero. `None` if what the item carries is not a version.
pub open spec fn stored_version<V>(item: Map<Seq<char>, AttributeView<V>>) -> Option<u64> {
    match number_in(item, DATA_VERSION_ATTRIBUTE@) {
        Some(n) => text::parsed_u64(n),
        None => Some(0),
    }
}

/// The failure to read the version `n` of the item under `pk`.
pub open spec fn not_a_version(pk: Seq<char>, n: Seq<char>) -> ErrorView {
    ErrorView::Serialization(
        "Stored "@ + DATA_VERSION_ATTRIBUTE@ + " for pk="@ + pk + " is not a u64: "@
            + text::u64_parse_error(n),
    )
}

/// What reading just the version of the item under `pk` returns: `None` if there is no item,
/// zero if there is one but it predates versioning.
pub fn version_reply<V>(pk: &str, reply: Result<Option<Item<V>>, String>) -> (read: Result<
    Option<u64>,
    Error,
>)
    ensures
        match reply {
            Err(reason) => match read {
                Ok(_) => false,
                Err(error) => error@ == failed_under("GetItem"@, pk@, reason@),
            },
            Ok(None) => read == Ok::<Option<u64>, Error>(None),
            Ok(Some(item)) => match stored_version(item@) {
                Some(version) => read == Ok::<Option<u64>, Error>(Some(version)),
                None => match read {
                    Ok(_) => false,
                    Err(error) => error@ == not_a_version(
                        pk@,
                        number_in(item@, DATA_VERSION_ATTRIBUTE@)->Some_0,
                    ),
                },
            },
        },
{
    match reply {
        Err(reason) => Err(partition_failure("GetItem", pk, reason.as_str())),
        Ok(None) => Ok(None),
        Ok(Some(item)) => match item.get(DATA_VERSION_ATTRIBUTE) {
            Some(AttributeValue::Scalar(Scalar::N(n))) => match parse_u64(n.as_str()) {
                Ok(version) => Ok(Some(version)),
                Err(reason) => {
                    let mut message = "Stored ".to_string();
                    message.append(DATA_VERSION_ATTRIBUTE);
                    message.append(" for pk=");
                    message.append(pk);
                    message.append(" is not a u64: ");
                    message.append(reason.as_str());
                    Err(Error::Serialization(message))
                },
            },
            // Present but unversioned: a legacy record, which reads as version 0.
            _ => Ok(Some(0)),
        },
    }
}

// ---------------------------------------------------------------------------------------------
// Guarded writes
// ---------------------------------------------------------------------------------------------

/// How a guarded write failed.
#[derive(Debug)]
pub enum PutFailure {
    /// The guard did not hold, so nothing was written.
    ConditionalCheckFailed,
    /// The request failed, for the reason given.
    Failed(String),
}

/// The failure of a write under `(pk, sk)` that was guarded by `condition`.
///
/// A failed conditional check is the guard doing its job, not the service failing: it becomes
/// whichever error that particular guard means. The service doesn't report the version it
/// actually found, so a conflict can't carry it.
pub open spec fn failed_write(
    pk: Seq<char>,
    sk: Option<Seq<char>>,
    condition: WriteCondition,
    failure: PutFailure,
) -> ErrorView {
    match failure {
        PutFailure::Failed(reason) => failed_on_item("PutItem"@, pk, sk, reason@),
        PutFailure::ConditionalCheckFailed => match condition {
            WriteCondition::MustNotExist => ErrorView::AlreadyExists { pk, sk },
            WriteCondition::VersionIs(expected_version) => ErrorView::Conflict {
                pk,
                sk,
                expected_version,
            },
        },
    }
}

/// What a write under `(pk, sk)` that was guarded by `condition` comes to.
pub fn put_reply(
    pk: &str,
    sk: &Option<String>,
    condition: WriteCondition,
    reply: Result<(), PutFailure>,
) -> (written: Result<(), Error>)
    ensures
        match (reply, written) {
            (Ok(()), Ok(())) => true,
            (Err(failure), Err(error)) => error@ == failed_write(
                pk@,
                text::chars_of(*sk),
                condition,
                failure,
            ),
            _ => false,
        },
{
    match reply {
        Ok(()) => Ok(()),
        Err(PutFailure::Failed(reason)) => Err(item_failure("PutItem", pk, sk, reason.as_str())),
        Err(PutFailure::ConditionalCheckFailed) => match condition {
            WriteCondition::MustNotExist => Err(
                Error::AlreadyExists { pk: pk.to_string(), sk: clone_text(sk) },
            ),
            WriteCondition::VersionIs(expected_version) => Err(
                Error::Conflict { pk: pk.to_string(), sk: clone_text(sk), expected_version },
            ),
        },
    }
}

// ---------------------------------------------------------------------------------------------
// Counters
// ---------------------------------------------------------------------------------------------

/// What the service returned of the attributes that adding to a counter touched.
#[derive(Debug)]
pub struct CounterReply<V> {
    pub attributes: Item<V>,
    /// The counter's attribute as it came back, shown to a reader.
    pub shown: String,
}

/// The failure of a counter that came back as the number `n`.
pub open spec fn not_a_count(pk: Seq<char>, attribute: Seq<char>, n: Seq<char>) -> ErrorView {
    ErrorView::Serialization(
        "Counter "@ + text::quoted(attribute) + " for pk="@ + pk + " is not an i64: "@
            + text::i64_parse_error(n),
    )
}

/// The failure of a counter that came back as no number, but as `shown`.
pub open spec fn not_numeric(pk: Seq<char>, attribute: Seq<char>, shown: Seq<char>) -> ErrorView {
    ErrorView::Service(
        "DynamoDB UpdateItem did not return a numeric "@ + text::quoted(attribute) + " for pk="@
            + pk + ": "@ + shown,
    )
}

/// The count in the attributes that an update of the item under `pk` touched, of which the
/// counter is shown as `shown`.
pub open spec fn returned_count<V>(
    pk: Seq<char>,
    attribute: Seq<char>,
    attributes: Map<Seq<char>, AttributeView<V>>,
    shown: Seq<char>,
) -> Result<i64, ErrorView> {
    match number_in(attributes, attribute) {
        Some(n) => match text::parsed_i64(n) {
            Some(count) => Ok(count),
            None => Err(not_a_count(pk, attribute, n)),
        },
        None => Err(not_numeric(pk, attribute, shown)),
    }
}

/// What adding to the counter in `attribute` of the item under `(pk, sk)` returns.
pub fn counter_reply<V>(
    pk: &str,
    sk: &Option<String>,
    attribute: &str,
    reply: Result<CounterReply<V>, String>,
) -> (counted: Result<i64, Error>)
    ensures
        crate::error::outcome(counted) == match reply {
            Err(reason) => Err(
                failed_on_item("UpdateItem"@, pk@, text::chars_of(*sk), reason@),
            ),
            Ok(touched) => returned_count(pk@, attribute@, touched.attributes@, touched.shown@),
        },
{
    match reply {
        Err(reason) => Err(item_failure("UpdateItem", pk, sk, reason.as_str())),
        Ok(touched) => match touched.attributes.get(attribute) {
            Some(AttributeValue::Scalar(Scalar::N(n))) => match parse_i64(n.as_str()) {
                Ok(count) => Ok(count),
                Err(reason) => {
                    let mut message = "Counter ".to_string();
                    message.append(quote(attribute).as_str());
                    message.append(" for pk=");
                    message.append(pk);
                    message.append(" is not an i64: ");
                    message.append(reason.as_str());
                    Err(Error::Serialization(message))
                },
            },
            _ => {
                let mut message = "DynamoDB UpdateItem did not return a numeric ".to_string();
                message.append(quote(attribute).as_str());
                message.append(" for pk=");
                message.append(pk);
                message.append(": ");
                message.append(touched.shown.as_str());
                Err(Error::Service(message))
            },
        },
    }
}

// ---------------------------------------------------------------------------------------------
// Queries
// ---------------------------------------------------------------------------------------------

/// The rows that the pages of a query have brought so far.
///
/// The service pages large result sets, so a query goes on until a page comes without a
/// continuation key.
#[derive(Debug)]
pub struct QueryPages<T> {
    rows: Vec<(u64, T)>,
}

/// One page of a query: what deserializing each of its rows came to, and the continuation key if
/// there is more.
#[derive(Debug)]
pub struct Page<T, K> {
    pub rows: Vec<Result<Container<T>, String>>,
    pub continuation: Option<K>,
}

/// How a query goes on behind a page.
#[derive(Debug)]
pub enum PageOutcome<T, K> {
    /// Ask for the page at this continuation key.
    More(QueryPages<T>, K),
    /// All rows are in.
    Done(Vec<(u64, T)>),
    /// The query failed.
    Failed(Error),
}

/// What a [`PageOutcome`] says.
#[verifier::ext_equal]
pub enum PageView<T, K> {
    More(Seq<(u64, T)>, K),
    Done(Seq<(u64, T)>),
    Failed(ErrorView),
}

impl<T, K> View for PageOutcome<T, K> {
    type V = PageView<T, K>;

    open spec fn view(&self) -> PageView<T, K> {
        match *self {
            PageOutcome::More(pages, key) => PageView::More(pages@, key),
            PageOutcome::Done(rows) => PageView::Done(rows@),
            PageOutcome::Failed(error) => PageView::Failed(error@),
        }
    }
}

/// The versions and payloads of rows that could all be deserialized.
pub open spec fn decoded<T>(rows: Seq<Result<Container<T>, String>>) -> Seq<(u64, T)> {
    rows.map_values(|row: Result<Container<T>, String>| row->Ok_0@)
}

/// How a query under `pk` that has brought `rows` goes on behind the next page: it fails if the
/// request failed or a row cannot be deserialized, and otherwise has the rows of the page behind
/// those it had.
pub open spec fn paged<T, K>(
    rows: Seq<(u64, T)>,
    pk: Seq<char>,
    reply: Result<Page<T, K>, String>,
) -> PageView<T, K> {
    match reply {
        Err(reason) => PageView::Failed(failed_under("Query"@, pk, reason@)),
        Ok(page) => match decode::first_reason(page.rows@) {
            Some(reason) => PageView::Failed(decode::undecodable_row("item"@, pk, reason)),
            None => match page.continuation {
                Some(key) => PageView::More(rows + decoded(page.rows@), key),
                None => PageView::Done(rows + decoded(page.rows@)),
            },
        },
    }
}

impl<T> View for QueryPages<T> {
    type V = Seq<(u64, T)>;

    closed spec fn view(&self) -> Seq<(u64, T)> {
        self.rows@
    }
}

impl<T> QueryPages<T> {
    /// A query of which no page has come in yet.
    pub fn new() -> (pages: Self)
        ensures
            pages@ == Seq::<(u64, T)>::empty(),
    {
        QueryPages { rows: Vec::new() }
    }

    /// Takes in the next page of a query under `pk`.
    pub fn take_page<K>(self, pk: &str, reply: Result<Page<T, K>, String>) -> (outcome: PageOutcome<
        T,
        K,
    >)
        ensures
            outcome@ == paged(self@, pk@, reply),
    {
        match reply {
            Err(reason) => PageOutcome::Failed(partition_failure("Query", pk, reason.as_str())),
            Ok(page) => {
                let ghost before = self@;
                let ghost raw = page.rows@;
                let mut rows = self.rows;
                match decode_rows("item", pk, page.rows) {
                    Err(error) => PageOutcome::Failed(error),
                    Ok(new_rows) => {
                        assert(new_rows@ =~= decoded(raw));
                        let mut new_rows = new_rows;
                        rows.append(&mut new_rows);
                        match page.continuation {
                            Some(key) => PageOutcome::More(QueryPages { rows }, key),
                            None => PageOutcome::Done(rows),
                        }
                    },
                }
            },
        }
    }
}

} // verus!
