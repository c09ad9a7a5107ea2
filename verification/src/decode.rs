//! What becomes of items once an attempt has been made to deserialize them.

use crate::container::Container;
use crate::error::{Error, ErrorView};
use crate::text;
use crate::text::quote_option;
use vstd::prelude::*;
use vstd::string::*;

verus! {

broadcast use vstd::string::group_string_axioms;

/// The failure to deserialize the item under `(pk, sk)`, which `subject` names, for `reason`.
pub open spec fn undecodable_item(
    subject: Seq<char>,
    pk: Seq<char>,
    sk: Option<Seq<char>>,
    reason: Seq<char>,
) -> ErrorView {
    ErrorView::Serialization(
        "Failed to deserialize "@ + subject + " for pk="@ + pk + ", sk="@ + text::quoted_option(sk)
            + ": "@ + reason,
    )
}

/// The failure to deserialize one of the items queried under `pk`, which `subject` names, for
/// `reason`.
pub open spec fn undecodable_row(subject: Seq<char>, pk: Seq<char>, reason: Seq<char>) -> ErrorView {
    ErrorView::Serialization(
        "Failed to deserialize "@ + subject + " for pk="@ + pk + ": "@ + reason,
    )
}

/// What a read of the item under `(pk, sk)` returns, given what deserializing the item, if there
/// is one, came to.
pub fn decode_item<T>(
    subject: &str,
    pk: &str,
    sk: &Option<String>,
    found: Option<Result<Container<T>, String>>,
) -> (read: Result<Option<(u64, T)>, Error>)
    ensures
        match found {
            None => read == Ok::<Option<(u64, T)>, Error>(None),
            Some(Ok(container)) => read == Ok::<Option<(u64, T)>, Error>(Some(container@)),
            Some(Err(reason)) => match read {
                Ok(_) => false,
                Err(error) => error@ == undecodable_item(
                    subject@,
                    pk@,
                    text::chars_of(*sk),
                    reason@,
                ),
            },
        },
{
    match found {
        None => Ok(None),
        Some(Ok(container)) => Ok(Some(container.into_parts())),
        Some(Err(reason)) => {
            let mut message = "Failed to deserialize ".to_string();
            message.append(subject);
            message.append(" for pk=");
            message.append(pk);
            message.append(", sk=");
            message.append(quote_option(sk).as_str());
            message.append(": ");
            message.append(reason.as_str());
            Err(Error::Serialization(message))
        },
    }
}

/// The reason for which the first row that cannot be deserialized cannot be.
pub open spec fn first_reason<T>(rows: Seq<Result<Container<T>, String>>) -> Option<Seq<char>>
    decreases rows.len(),
{
    if rows.len() == 0 {
        None
    } else {
        match rows[0] {
            Ok(_) => first_reason(rows.drop_first()),
            Err(reason) => Some(reason@),
        }
    }
}

/// What a query under `pk` returns, given what deserializing each row came to: all the rows, or
/// the failure of the first that cannot be deserialized.
#[verifier::loop_isolation(false)]
pub fn decode_rows<T>(subject: &str, pk: &str, rows: Vec<Result<Container<T>, String>>) -> (read:
    Result<Vec<(u64, T)>, Error>)
    ensures
        match read {
            Ok(decoded) => {
                &&& decoded@.len() == rows@.len()
                &&& forall|i: int|
                    0 <= i < rows@.len() ==> #[trigger] rows@[i] is Ok && decoded@[i]
                        == rows@[i]->Ok_0@
            },
            Err(error) => {
                &&& first_reason(rows@) is Some
                &&& error@ == undecodable_row(subject@, pk@, first_reason(rows@)->Some_0)
            },
        },
        read is Ok <==> first_reason(rows@) is None,
{
    let ghost all = rows@;
    let mut decoded: Vec<(u64, T)> = Vec::new();
    let mut rows = rows;
    assert(rows@ =~= all.subrange(0, all.len() as int));
    while rows.len() > 0
        invariant
            rows@.len() + decoded@.len() == all.len(),
            rows@ == all.subrange(decoded@.len() as int, all.len() as int),
            first_reason(all) == first_reason(rows@),
            forall|i: int|
                0 <= i < decoded@.len() ==> #[trigger] all[i] is Ok && decoded@[i]
                    == all[i]->Ok_0@,
        decreases rows@.len(),
    {
        let ghost before = rows@;
        let ghost done = decoded@.len() as int;
        assert(before[0] == all[done]);
        match rows.remove(0) {
            Ok(container) => {
                assert(rows@ =~= before.drop_first());
                assert(rows@ =~= all.subrange(done + 1, all.len() as int));
                decoded.push(container.into_parts());
            },
            Err(reason) => {
                let mut message = "Failed to deserialize ".to_string();
                message.append(subject);
                message.append(" for pk=");
                message.append(pk);
                message.append(": ");
                message.append(reason.as_str());
                return Err(Error::Serialization(message));
            },
        }
    }
    Ok(decoded)
}

} // verus!
