//! How writes to the service begin, and how they end.

use crate::aws::guarded;
use crate::aws::guarded::{AttemptView, OutcomeView, WriteView};
use crate::aws::reply;
use crate::aws::reply::PutFailure;
use crate::aws::request::WriteCondition;
use crate::error::{Error, ErrorView};
use crate::laws::store;
use crate::schema::PrimaryIndex;
use crate::text;
use vstd::prelude::*;

verus! {

/// A write is about the key that it was begun with. A create is to land at version one where
/// nothing is stored, a put one past the version that it expects where the item is at that
/// version, and an overwrite has eight attempts. A put that expects the largest version is a
/// conflict.
pub proof fn law_writes_begin_with_their_key_and_their_guard(
    schema: PrimaryIndex,
    pk: Seq<char>,
    sk: Option<Seq<char>>,
    expected: u64,
)
    ensures
        ({
            let matched = schema.keys.sk_identifier is Some <==> sk is Some;
            &&& !matched ==> guarded::begun_create(schema, pk, sk) == Err::<WriteView, ErrorView>(
                store::mismatch(schema),
            )
            &&& !matched ==> guarded::begun_put(schema, pk, sk, expected) == Err::<
                WriteView,
                ErrorView,
            >(store::mismatch(schema))
            &&& !matched ==> guarded::begun_overwrite(schema, pk, sk) == Err::<
                AttemptView,
                ErrorView,
            >(store::mismatch(schema))
            &&& matched ==> guarded::begun_create(schema, pk, sk) == Ok::<WriteView, ErrorView>(
                WriteView {
                    schema,
                    pk,
                    sk,
                    new_version: 1,
                    condition: WriteCondition::MustNotExist,
                    retries: None,
                },
            )
            &&& matched && expected < u64::MAX ==> guarded::begun_put(schema, pk, sk, expected)
                == Ok::<WriteView, ErrorView>(
                WriteView {
                    schema,
                    pk,
                    sk,
                    new_version: (expected + 1) as u64,
                    condition: WriteCondition::VersionIs(expected),
                    retries: None,
                },
            )
            &&& matched && expected == u64::MAX ==> guarded::begun_put(schema, pk, sk, expected)
                == Err::<WriteView, ErrorView>(
                ErrorView::Conflict { pk, sk, expected_version: u64::MAX },
            )
            &&& matched ==> guarded::begun_overwrite(schema, pk, sk) == Ok::<
                AttemptView,
                ErrorView,
            >(AttemptView { schema, pk, sk, attempts: 8 })
        }),
{
}

/// An attempt of an overwrite is to create an item that was read as absent, at version one, and
/// to replace one that was read at a version, one past it, if it is still at that version; it
/// uses up an attempt.
pub proof fn law_an_attempt_replaces_what_it_read(attempt: AttemptView, version: u64)
    requires
        attempt.attempts > 0,
        version < u64::MAX,
    ensures
        guarded::planned(attempt, None) == (WriteView {
            schema: attempt.schema,
            pk: attempt.pk,
            sk: attempt.sk,
            new_version: 1,
            condition: WriteCondition::MustNotExist,
            retries: Some((attempt.attempts - 1) as u64),
        }),
        guarded::planned(attempt, Some(version)) == (WriteView {
            schema: attempt.schema,
            pk: attempt.pk,
            sk: attempt.sk,
            new_version: (version + 1) as u64,
            condition: WriteCondition::VersionIs(version),
            retries: Some((attempt.attempts - 1) as u64),
        }),
{
}

/// A write that goes through returns its version. A guard that does not hold is reported by a
/// create as an existing item and by a put as a conflict with the version that it expected; an
/// overwrite starts over while it has attempts, and then reports a conflict with the version that
/// it read, which is zero for an absent item. A request that fails is reported as it is.
pub proof fn law_writes_end_as_the_service_answers(
    write: WriteView,
    expected: u64,
    attempts: u64,
    reason: String,
)
    ensures
        ({
            let lost = Err::<(), PutFailure>(PutFailure::ConditionalCheckFailed);
            let failed = Err::<(), PutFailure>(PutFailure::Failed(reason));
            let create = WriteView {
                condition: WriteCondition::MustNotExist,
                retries: None,
                ..write
            };
            let put = WriteView {
                condition: WriteCondition::VersionIs(expected),
                retries: None,
                ..write
            };
            let retried = WriteView { retries: Some(attempts), ..write };
            let over_none = WriteView {
                condition: WriteCondition::MustNotExist,
                retries: Some(0),
                ..write
            };
            let over_some = WriteView {
                condition: WriteCondition::VersionIs(expected),
                retries: Some(0),
                ..write
            };
            &&& guarded::settled(write, Ok(())) == OutcomeView::Written(write.new_version)
            &&& guarded::settled(write, failed) == OutcomeView::Failed(
                ErrorView::Service(
                    "DynamoDB PutItem failed for pk="@ + write.pk + ", sk="@ + text::quoted_option(
                        write.sk,
                    ) + ": "@ + reason@,
                ),
            )
            &&& guarded::settled(create, lost) == OutcomeView::Failed(
                ErrorView::AlreadyExists { pk: write.pk, sk: write.sk },
            )
            &&& guarded::settled(put, lost) == OutcomeView::Failed(
                ErrorView::Conflict { pk: write.pk, sk: write.sk, expected_version: expected },
            )
            &&& attempts > 0 ==> guarded::settled(retried, lost) == OutcomeView::Retry(
                AttemptView {
                    schema: write.schema,
                    pk: write.pk,
                    sk: write.sk,
                    attempts,
                },
            )
            &&& guarded::settled(over_none, lost) == OutcomeView::Failed(
                ErrorView::Conflict { pk: write.pk, sk: write.sk, expected_version: 0 },
            )
            &&& guarded::settled(over_some, lost) == OutcomeView::Failed(
                ErrorView::Conflict { pk: write.pk, sk: write.sk, expected_version: expected },
            )
        }),
{
    reveal_strlit("DynamoDB ");
    reveal_strlit("PutItem");
    reveal_strlit(" failed for pk=");
    reveal_strlit("DynamoDB PutItem failed for pk=");
    assert("DynamoDB PutItem failed for pk="@ =~= "DynamoDB "@ + "PutItem"@ + " failed for pk="@);
}

/// What a write is answered for a failure, and what its outcome says.
pub proof fn law_failed_writes_are_reported_by_their_guard(
    pk: Seq<char>,
    sk: Option<Seq<char>>,
    expected: u64,
    condition: WriteCondition,
    reason: String,
    version: u64,
    step: guarded::ReadStep,
    error: Error,
)
    ensures
        reply::failed_write(
            pk,
            sk,
            WriteCondition::MustNotExist,
            PutFailure::ConditionalCheckFailed,
        ) == (ErrorView::AlreadyExists { pk, sk }),
        reply::failed_write(
            pk,
            sk,
            WriteCondition::VersionIs(expected),
            PutFailure::ConditionalCheckFailed,
        ) == (ErrorView::Conflict { pk, sk, expected_version: expected }),
        reply::failed_write(pk, sk, condition, PutFailure::Failed(reason)) == ErrorView::Service(
            "DynamoDB PutItem failed for pk="@ + pk + ", sk="@ + text::quoted_option(sk) + ": "@
                + reason@,
        ),
        guarded::WriteOutcome::Retry(step)@ == OutcomeView::Retry(step@),
        guarded::WriteOutcome::Written(version)@ == OutcomeView::Written(version),
        guarded::WriteOutcome::Failed(error)@ == OutcomeView::Failed(error@),
{
    reveal_strlit("DynamoDB ");
    reveal_strlit("PutItem");
    reveal_strlit(" failed for pk=");
    reveal_strlit("DynamoDB PutItem failed for pk=");
    assert("DynamoDB PutItem failed for pk="@ =~= "DynamoDB "@ + "PutItem"@ + " failed for pk="@);
}

} // verus!
