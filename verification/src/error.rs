//! What an operation can fail with.

use crate::text;
use crate::text::{quote_option, u64_text};
use vstd::prelude::*;
use vstd::string::*;

verus! {

broadcast use vstd::string::group_string_axioms;

/// Everything an operation can fail with.
///
/// The distinction that matters to most callers is [`Error::Conflict`], a lost race that the
/// caller should retry, versus everything else, which signals a bug or an outage.
///
/// Marked `#[non_exhaustive]`: match with a wildcard arm, so that new variants don't break you.
///
/// The variants that carry a `String` have already had their context formatted in.
#[derive(Debug, Clone)]
#[non_exhaustive]
pub enum Error {
    /// `create_item` found an item already stored under the key, so nothing was written.
    ///
    /// Distinct from [`Error::Conflict`] on purpose: a caller bootstrapping an item wants to
    /// tell "someone else already created this" apart from "my compare-and-swap lost", because
    /// the recovery differs: re-read and merge, versus retry the swap.
    AlreadyExists { pk: String, sk: Option<String> },
    /// An optimistic-concurrency check failed: the item's stored `data_version` was not
    /// `expected_version`, so a concurrent writer got there first and nothing was written.
    ///
    /// Also what `put_item` returns for an item that does not exist. Deliberately does not
    /// report the version actually found: a failed conditional check doesn't reveal it.
    Conflict { pk: String, sk: Option<String>, expected_version: u64 },
    /// The call was rejected before it reached the backend, because the arguments contradict
    /// the configured schema or the operation's contract. Retrying unchanged fails the same way.
    InvalidRequest(String),
    /// The operation is meaningful but this backend hasn't implemented it yet.
    Unsupported(String),
    /// A payload could not be serialized into, or deserialized out of, its stored
    /// representation.
    Serialization(String),
    /// The backend itself failed: transport error, throttling, an unexpected service response.
    /// The one variant that may be worth retrying blindly.
    Service(String),
}

/// What an [`Error`] says.
#[verifier::ext_equal]
pub enum ErrorView {
    AlreadyExists { pk: Seq<char>, sk: Option<Seq<char>> },
    Conflict { pk: Seq<char>, sk: Option<Seq<char>>, expected_version: u64 },
    InvalidRequest(Seq<char>),
    Unsupported(Seq<char>),
    Serialization(Seq<char>),
    Service(Seq<char>),
}

impl View for Error {
    type V = ErrorView;

    open spec fn view(&self) -> ErrorView {
        match *self {
            Error::AlreadyExists { pk, sk } => ErrorView::AlreadyExists {
                pk: pk@,
                sk: text::chars_of(sk),
            },
            Error::Conflict { pk, sk, expected_version } => ErrorView::Conflict {
                pk: pk@,
                sk: text::chars_of(sk),
                expected_version,
            },
            Error::InvalidRequest(message) => ErrorView::InvalidRequest(message@),
            Error::Unsupported(message) => ErrorView::Unsupported(message@),
            Error::Serialization(message) => ErrorView::Serialization(message@),
            Error::Service(message) => ErrorView::Service(message@),
        }
    }
}

impl ErrorView {
    /// The error as it is shown to a reader. A conflict and a collision are worded here, so that
    /// every backend words them identically; the other variants carry their message.
    pub open spec fn text(self) -> Seq<char> {
        match self {
            ErrorView::AlreadyExists { pk, sk } => "Item already exists for pk="@ + pk + ", sk="@
                + text::quoted_option(sk),
            ErrorView::Conflict { pk, sk, expected_version } =>
                "Optimistic concurrency conflict for pk="@ + pk + ", sk="@ + text::quoted_option(sk)
                + ": expected version "@ + text::decimal(expected_version as nat),
            ErrorView::InvalidRequest(message) => message,
            ErrorView::Unsupported(message) => message,
            ErrorView::Serialization(message) => message,
            ErrorView::Service(message) => message,
        }
    }

    /// A lost race: the item moved between the caller's read and its write.
    pub open spec fn is_lost_race(self) -> bool {
        self is AlreadyExists || self is Conflict
    }
}

/// A result, with its error taken by its view.
pub open spec fn outcome<T>(result: Result<T, Error>) -> Result<T, ErrorView> {
    match result {
        Ok(value) => Ok(value),
        Err(error) => Err(error@),
    }
}

/// The rejection of an expected version of zero.
pub open spec fn zero_version_error() -> ErrorView {
    ErrorView::InvalidRequest(
        "put_item() does not accept version=0. Use put_item_unconditional()"@,
    )
}

/// The rejection of a sort key condition against an index that has no sort key.
pub open spec fn no_sort_key_error() -> ErrorView {
    ErrorView::InvalidRequest("a sort key condition was provided but the index has no sort key"@)
}

impl Error {
    /// Rejects `expected_version == 0`, which is reserved.
    pub fn zero_expected_version() -> (error: Self)
        ensures
            error@ == zero_version_error(),
    {
        Error::InvalidRequest(
            "put_item() does not accept version=0. Use put_item_unconditional()".to_string(),
        )
    }

    /// Rejects a sort key condition against an index that has no sort key.
    pub fn sk_condition_without_sort_key() -> (error: Self)
        ensures
            error@ == no_sort_key_error(),
    {
        Error::InvalidRequest(
            "a sort key condition was provided but the index has no sort key".to_string(),
        )
    }

    /// Whether this is a lost race, which re-reading and trying again can win.
    pub fn is_lost_race(&self) -> (lost: bool)
        ensures
            lost == self@.is_lost_race(),
    {
        match self {
            Error::AlreadyExists { .. } => true,
            Error::Conflict { .. } => true,
            _ => false,
        }
    }

    /// The error as it is shown to a reader.
    pub fn to_string(&self) -> (text: String)
        ensures
            text@ == self@.text(),
    {
        match self {
            Error::AlreadyExists { pk, sk } => {
                let mut text = "Item already exists for pk=".to_string();
                text.append(pk.as_str());
                text.append(", sk=");
                text.append(quote_option(sk).as_str());
                text
            },
            Error::Conflict { pk, sk, expected_version } => {
                let mut text = "Optimistic concurrency conflict for pk=".to_string();
                text.append(pk.as_str());
                text.append(", sk=");
                text.append(quote_option(sk).as_str());
                text.append(": expected version ");
                text.append(u64_text(*expected_version).as_str());
                text
            },
            Error::InvalidRequest(message) => message.clone(),
            Error::Unsupported(message) => message.clone(),
            Error::Serialization(message) => message.clone(),
            Error::Service(message) => message.clone(),
        }
    }
}

} // verus!
