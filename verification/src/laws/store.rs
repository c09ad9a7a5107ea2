//! What each operation on the in-memory store does, and what it answers.

use crate::error::ErrorView;
use crate::json;
use crate::laws::Op;
use crate::mock;
use crate::mock::{MockKeyView, MockView};
use crate::schema::PrimaryIndex;
use crate::text;
use vstd::prelude::*;

verus! {

/// The key `(pk, sk)` in `table`.
pub open spec fn key(table: Seq<char>, pk: Seq<char>, sk: Option<Seq<char>>) -> MockKeyView {
    MockKeyView { table, pk, sk }
}

/// What an operation with a sort key that does not match the schema is answered.
pub open spec fn mismatch(schema: PrimaryIndex) -> ErrorView {
    ErrorView::InvalidRequest(
        if schema.keys.sk_identifier is Some {
            "PrimaryIndex has a sort key, but none was provided"@
        } else {
            "a sort key was provided, but PrimaryIndex has none"@
        },
    )
}

/// Whether a sort key is given exactly when the schema has one.
pub open spec fn matches_schema(schema: PrimaryIndex, sk: Option<Seq<char>>) -> bool {
    schema.keys.sk_identifier is Some <==> sk is Some
}

/// A store that differs from `before` in what it holds under one key: `version` and `payload`.
pub open spec fn holds_instead(
    before: MockView,
    after: MockView,
    at: MockKeyView,
    version: u64,
    payload: serde_json::Value,
) -> bool {
    &&& after.schema == before.schema
    &&& after.items.contains_key(at)
    &&& after.items[at] == (version, payload)
    &&& forall|other: MockKeyView|
        other != at ==> (#[trigger] after.items.contains_key(other)
            <==> before.items.contains_key(other)) && after.items[other] == before.items[other]
}

/// A read returns the version and the payload that are stored under the table, the partition key
/// and the sort key given, and nothing where nothing is stored.
pub proof fn law_a_read_returns_what_is_stored(
    db: MockView,
    table: Seq<char>,
    pk: Seq<char>,
    sk: Option<Seq<char>>,
)
    ensures
        ({
            let read = db.read(mock::key_of(table, pk, sk));
            let at = key(table, pk, sk);
            &&& !matches_schema(db.schema, sk) ==> read == Err::<
                Option<(u64, serde_json::Value)>,
                ErrorView,
            >(mismatch(db.schema))
            &&& matches_schema(db.schema, sk) && db.items.contains_key(at) ==> read == Ok::<
                Option<(u64, serde_json::Value)>,
                ErrorView,
            >(Some(db.items[at]))
            &&& matches_schema(db.schema, sk) && !db.items.contains_key(at) ==> read == Ok::<
                Option<(u64, serde_json::Value)>,
                ErrorView,
            >(None)
        }),
{
}

/// Seeding stores the payload at the version given, whatever was stored.
pub proof fn law_seeding_stores_the_payload(
    db: MockView,
    table: Seq<char>,
    pk: Seq<char>,
    sk: Option<Seq<char>>,
    version: u64,
    payload: Result<serde_json::Value, Seq<char>>,
)
    ensures
        ({
            let (after, result) = db.seeded(mock::key_of(table, pk, sk), version, payload);
            &&& !matches_schema(db.schema, sk) ==> after == db && result == Err::<(), ErrorView>(
                mismatch(db.schema),
            )
            &&& matches_schema(db.schema, sk) && payload is Err ==> after == db && result == Err::<
                (),
                ErrorView,
            >(
                ErrorView::Serialization(
                    "Failed to serialize mock payload: "@ + payload->Err_0,
                ),
            )
            &&& matches_schema(db.schema, sk) && payload is Ok ==> result == Ok::<(), ErrorView>(())
                && holds_instead(db, after, key(table, pk, sk), version, payload->Ok_0)
        }),
{
}

/// A create stores the payload at version one where nothing is stored under the key, and is
/// refused with the key where something is, whatever its version.
pub proof fn law_a_create_stores_the_payload_at_version_one(
    db: MockView,
    table: Seq<char>,
    pk: Seq<char>,
    sk: Option<Seq<char>>,
    payload: Result<serde_json::Value, Seq<char>>,
)
    ensures
        ({
            let (after, result) = db.created(mock::key_of(table, pk, sk), payload);
            let at = key(table, pk, sk);
            &&& !matches_schema(db.schema, sk) ==> after == db && result == Err::<u64, ErrorView>(
                mismatch(db.schema),
            )
            &&& matches_schema(db.schema, sk) && payload is Err ==> after == db && result == Err::<
                u64,
                ErrorView,
            >(
                ErrorView::Serialization(
                    "Failed to serialize mock payload: "@ + payload->Err_0,
                ),
            )
            &&& matches_schema(db.schema, sk) && payload is Ok && db.items.contains_key(at) ==> after
                == db && result == Err::<u64, ErrorView>(ErrorView::AlreadyExists { pk, sk })
            &&& matches_schema(db.schema, sk) && payload is Ok && !db.items.contains_key(at)
                ==> result == Ok::<u64, ErrorView>(1u64) && holds_instead(
                db,
                after,
                at,
                1,
                payload->Ok_0,
            )
        }),
{
}

/// A put stores the payload one past the expected version where the item is stored at exactly
/// that version, and is answered with a conflict where it is stored at another, older or newer,
/// or not at all. An expected version of zero is refused.
pub proof fn law_a_put_replaces_the_expected_version_only(
    db: MockView,
    table: Seq<char>,
    pk: Seq<char>,
    sk: Option<Seq<char>>,
    expected: u64,
    payload: Result<serde_json::Value, Seq<char>>,
)
    ensures
        ({
            let (after, result) = db.replaced(mock::key_of(table, pk, sk), expected, payload);
            let at = key(table, pk, sk);
            let current = db.items.contains_key(at) && db.items[at].0 == expected;
            &&& expected == 0 ==> after == db && result == Err::<u64, ErrorView>(
                ErrorView::InvalidRequest(
                    "put_item() does not accept version=0. Use put_item_unconditional()"@,
                ),
            )
            &&& expected > 0 && !matches_schema(db.schema, sk) ==> after == db && result == Err::<
                u64,
                ErrorView,
            >(mismatch(db.schema))
            &&& expected > 0 && matches_schema(db.schema, sk) && payload is Err ==> after == db
                && result == Err::<u64, ErrorView>(
                ErrorView::Serialization(
                    "Failed to serialize mock payload: "@ + payload->Err_0,
                ),
            )
            &&& expected > 0 && matches_schema(db.schema, sk) && payload is Ok && !current ==> after
                == db && result == Err::<u64, ErrorView>(
                ErrorView::Conflict { pk, sk, expected_version: expected },
            )
            &&& 0 < expected < u64::MAX && matches_schema(db.schema, sk) && payload is Ok && current
                ==> result == Ok::<u64, ErrorView>((expected + 1) as u64) && holds_instead(
                db,
                after,
                at,
                (expected + 1) as u64,
                payload->Ok_0,
            )
        }),
{
}

/// An overwrite stores the payload one past the stored version, or at version one where nothing
/// is stored, and is never answered with a lost race.
pub proof fn law_an_overwrite_stores_the_payload_and_advances(
    db: MockView,
    table: Seq<char>,
    pk: Seq<char>,
    sk: Option<Seq<char>>,
    payload: Result<serde_json::Value, Seq<char>>,
)
    ensures
        ({
            let (after, result) = db.overwritten(mock::key_of(table, pk, sk), payload);
            let at = key(table, pk, sk);
            &&& !matches_schema(db.schema, sk) ==> after == db && result == Err::<u64, ErrorView>(
                mismatch(db.schema),
            )
            &&& matches_schema(db.schema, sk) && payload is Err ==> after == db && result == Err::<
                u64,
                ErrorView,
            >(
                ErrorView::Serialization(
                    "Failed to serialize mock payload: "@ + payload->Err_0,
                ),
            )
            &&& matches_schema(db.schema, sk) && payload is Ok && !db.items.contains_key(at)
                ==> result == Ok::<u64, ErrorView>(1u64) && holds_instead(
                db,
                after,
                at,
                1,
                payload->Ok_0,
            )
            &&& matches_schema(db.schema, sk) && payload is Ok && db.items.contains_key(at)
                && db.items[at].0 < u64::MAX ==> result == Ok::<u64, ErrorView>(
                (db.items[at].0 + 1) as u64,
            ) && holds_instead(db, after, at, (db.items[at].0 + 1) as u64, payload->Ok_0)
        }),
{
}

/// A delete leaves nothing under the key and everything else as it was, whether or not something
/// was stored there.
pub proof fn law_a_delete_leaves_nothing_under_the_key(
    db: MockView,
    table: Seq<char>,
    pk: Seq<char>,
    sk: Option<Seq<char>>,
    other: MockKeyView,
)
    ensures
        ({
            let (after, result) = db.deleted(mock::key_of(table, pk, sk));
            let at = key(table, pk, sk);
            &&& !matches_schema(db.schema, sk) ==> after == db && result == Err::<(), ErrorView>(
                mismatch(db.schema),
            )
            &&& matches_schema(db.schema, sk) ==> result == Ok::<(), ErrorView>(()) && after.schema
                == db.schema && !after.items.contains_key(at)
            &&& matches_schema(db.schema, sk) && other != at ==> (after.items.contains_key(other)
                <==> db.items.contains_key(other)) && after.items[other] == db.items[other]
        }),
{
}

/// What is read under a table, a partition key and a sort key stays as it is by every operation on
/// another table, another partition key or another sort key.
pub proof fn law_operations_leave_other_reads_as_they_are(
    op: Op,
    before: MockView,
    after: MockView,
    table: Seq<char>,
    pk: Seq<char>,
    sk: Option<Seq<char>>,
    other_table: Seq<char>,
    other_pk: Seq<char>,
    other_sk: Option<Seq<char>>,
)
    requires
        op.leads(before, after),
        op.key() == mock::key_of(table, pk, sk),
        other_table != table || other_pk != pk || other_sk != sk,
    ensures
        after.read(mock::key_of(other_table, other_pk, other_sk)) == before.read(
            mock::key_of(other_table, other_pk, other_sk),
        ),
{
    crate::laws::law_operations_touch_one_key(
        op,
        before,
        after,
        mock::key_of(other_table, other_pk, other_sk),
    );
}

/// A version can be advanced unless it is the largest; a write that is refused advances none.
pub proof fn law_only_the_largest_version_cannot_be_advanced(
    db: MockView,
    table: Seq<char>,
    pk: Seq<char>,
    sk: Option<Seq<char>>,
    payload: Result<serde_json::Value, Seq<char>>,
)
    ensures
        !db.can_advance(mock::key_of(table, pk, sk), payload) <==> matches_schema(db.schema, sk)
            && payload is Ok && db.items.contains_key(key(table, pk, sk)) && db.items[key(
            table,
            pk,
            sk,
        )].0 == u64::MAX,
{
}

/// A write that the schema or the serialization refuses is refused alike by the checks that come
/// before a store is looked at.
pub proof fn law_writes_are_refused_for_their_key_or_their_payload(
    schema: PrimaryIndex,
    sk: Option<Seq<char>>,
    expected: u64,
    payload: Result<serde_json::Value, Seq<char>>,
    value: serde_json::Value,
    reason: String,
)
    ensures
        !matches_schema(schema, sk) ==> mock::write_rejection(schema, sk, payload) == Some(
            mismatch(schema),
        ),
        matches_schema(schema, sk) && payload is Err ==> mock::write_rejection(schema, sk, payload)
            == Some(
            ErrorView::Serialization("Failed to serialize mock payload: "@ + payload->Err_0),
        ),
        matches_schema(schema, sk) && payload is Ok ==> mock::write_rejection(schema, sk, payload)
            is None,
        expected > 0 ==> mock::put_rejection(schema, sk, expected, payload)
            == mock::write_rejection(schema, sk, payload),
        expected == 0 ==> mock::put_rejection(schema, sk, expected, payload) == Some(
            ErrorView::InvalidRequest(
                "put_item() does not accept version=0. Use put_item_unconditional()"@,
            ),
        ),
        mock::payload_of(Ok(value)) == Ok::<serde_json::Value, Seq<char>>(value),
        mock::payload_of(Err(reason)) == Err::<serde_json::Value, Seq<char>>(reason@),
{
}

/// A counter starts from zero where the item or the attribute is absent, and is otherwise added to
/// where the attribute holds an integer and the sum fits.
pub proof fn law_a_count_adds_to_what_is_stored(
    db: MockView,
    table: Seq<char>,
    pk: Seq<char>,
    sk: Option<Seq<char>>,
    attribute: Seq<char>,
    delta: i64,
)
    ensures
        ({
            let result = db.count(mock::key_of(table, pk, sk), attribute, delta);
            let at = key(table, pk, sk);
            let members = json::json_members(db.items[at].1);
            let reserved = attribute == db.schema.keys.pk_identifier@ || attribute
                == "data_version"@ || (db.schema.keys.sk_identifier is Some && attribute
                == db.schema.keys.sk_identifier->Some_0@);
            let accepted = !reserved && matches_schema(db.schema, sk);
            let stored = db.items.contains_key(at);
            let counts = stored && json::json_is_object(db.items[at].1) && members.contains_key(
                attribute,
            );
            let n = json::json_integer(members[attribute]);
            &&& reserved ==> result == Err::<i64, ErrorView>(
                ErrorView::InvalidRequest(
                    "a counter cannot be kept in the reserved attribute "@ + text::quoted(
                        attribute,
                    ),
                ),
            )
            &&& !reserved && !matches_schema(db.schema, sk) ==> result == Err::<i64, ErrorView>(
                mismatch(db.schema),
            )
            &&& accepted && !stored ==> result == Ok::<i64, ErrorView>(delta)
            &&& accepted && stored && json::json_is_object(db.items[at].1)
                && !members.contains_key(attribute) ==> result == Ok::<i64, ErrorView>(delta)
            &&& accepted && counts && n is Some && i64::MIN <= n->Some_0 + delta <= i64::MAX
                ==> result == Ok::<i64, ErrorView>((n->Some_0 + delta) as i64)
            &&& accepted && counts && n is Some && !(i64::MIN <= n->Some_0 + delta <= i64::MAX)
                ==> result == Err::<i64, ErrorView>(
                ErrorView::Serialization(
                    "Counter "@ + text::quoted(attribute) + " for pk="@ + pk
                        + " is not an i64 after adding "@ + text::signed_decimal(delta as int),
                ),
            )
            &&& accepted && stored && (!json::json_is_object(db.items[at].1) || (counts && n
                is None)) ==> result == Err::<i64, ErrorView>(
                ErrorView::Service(
                    "mock item for pk="@ + pk + " holds no integer in "@ + text::quoted(attribute),
                ),
            )
        }),
{
}

/// A count that goes through stores the new value in its attribute, keeps every other attribute,
/// and moves the version one on, or to one where nothing was stored. One that is refused changes
/// nothing.
pub proof fn law_a_count_changes_its_attribute_and_the_version(
    before: MockView,
    after: MockView,
    table: Seq<char>,
    pk: Seq<char>,
    sk: Option<Seq<char>>,
    attribute: Seq<char>,
    delta: i64,
    other: Seq<char>,
)
    requires
        before.counted(after, mock::key_of(table, pk, sk), attribute, delta),
    ensures
        ({
            let at = key(table, pk, sk);
            let result = before.count(mock::key_of(table, pk, sk), attribute, delta);
            let payload = after.items[at].1;
            let members = json::json_members(payload);
            let stored = before.items.contains_key(at);
            &&& result is Err ==> after == before
            &&& result is Ok && !stored ==> holds_instead(before, after, at, 1, payload)
            &&& result is Ok && stored && before.items[at].0 < u64::MAX ==> holds_instead(
                before,
                after,
                at,
                (before.items[at].0 + 1) as u64,
                payload,
            )
            &&& result is Ok ==> json::json_is_object(payload) && members.contains_key(attribute)
                && json::json_integer(members[attribute]) == Some(result->Ok_0)
            &&& result is Ok && other != attribute && stored ==> (members.contains_key(other)
                <==> json::json_members(before.items[at].1).contains_key(other)) && (
            members.contains_key(other) ==> members[other] == json::json_members(
                before.items[at].1,
            )[other])
            &&& result is Ok && other != attribute && !stored ==> !members.contains_key(other)
        }),
{
}

} // verus!
