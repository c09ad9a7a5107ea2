//! What holds of the store as a whole, of the requests, and between the two.

pub mod expressions;
pub mod items;
pub mod keys;
pub mod queries;
pub mod replies;
pub mod store;
pub mod writes;

use crate::aws::guarded;
use crate::aws::item::{AttributeView, ScalarView};
use crate::aws::reply;
use crate::aws::request;
use crate::aws::request::{ExpressionView, WriteCondition};
use crate::aws::service;
use crate::decode;
use crate::error::ErrorView;
use crate::mock;
use crate::mock::{MockKeyView, MockView, QueryView};
use crate::schema;
use crate::schema::{
    AnyIndex, PrimaryIndex, SortKeyCondition, DATA_VERSION_ATTRIBUTE, INITIAL_DATA_VERSION,
};
use crate::text;
use vstd::prelude::*;

verus! {

// ---------------------------------------------------------------------------------------------
// Single operations on the store
// ---------------------------------------------------------------------------------------------

/// An operation on the store that may change it.
pub enum Op {
    Seed { key: MockKeyView, version: u64, payload: Result<serde_json::Value, Seq<char>> },
    Create { key: MockKeyView, payload: Result<serde_json::Value, Seq<char>> },
    Put { key: MockKeyView, expected: u64, payload: Result<serde_json::Value, Seq<char>> },
    Overwrite { key: MockKeyView, payload: Result<serde_json::Value, Seq<char>> },
    Count { key: MockKeyView, attribute: Seq<char>, delta: i64 },
    Delete { key: MockKeyView },
}

impl Op {
    /// The key that the operation is about.
    pub open spec fn key(self) -> MockKeyView {
        match self {
            Op::Seed { key, .. } => key,
            Op::Create { key, .. } => key,
            Op::Put { key, .. } => key,
            Op::Overwrite { key, .. } => key,
            Op::Count { key, .. } => key,
            Op::Delete { key } => key,
        }
    }

    /// Whether the operation goes through on the store `before`.
    pub open spec fn succeeds(self, before: MockView) -> bool {
        match self {
            Op::Seed { key, version, payload } => before.seeded(key, version, payload).1 is Ok,
            Op::Create { key, payload } => before.created(key, payload).1 is Ok,
            Op::Put { key, expected, payload } => before.replaced(key, expected, payload).1 is Ok,
            Op::Overwrite { key, payload } => before.overwritten(key, payload).1 is Ok,
            Op::Count { key, attribute, delta } => before.count(key, attribute, delta) is Ok,
            Op::Delete { key } => before.deleted(key).1 is Ok,
        }
    }

    /// Whether the operation takes the store from `before` to `after`. A version at the limit of
    /// its type is not advanced.
    pub open spec fn leads(self, before: MockView, after: MockView) -> bool {
        &&& (self is Put || self is Overwrite || self is Count) && self.succeeds(before)
            ==> before.version_of(self.key()) != Some(u64::MAX)
        &&& match self {
            Op::Seed { key, version, payload } => after == before.seeded(key, version, payload).0,
            Op::Create { key, payload } => after == before.created(key, payload).0,
            Op::Put { key, expected, payload } => after == before.replaced(
                key,
                expected,
                payload,
            ).0,
            Op::Overwrite { key, payload } => after == before.overwritten(key, payload).0,
            Op::Count { key, attribute, delta } => before.counted(after, key, attribute, delta),
            Op::Delete { key } => after == before.deleted(key).0,
        }
    }

    /// Whether the operation may rewind the version under `key`: seeding and deleting do.
    pub open spec fn may_rewind(self, key: MockKeyView) -> bool {
        (self is Seed || self is Delete) && self.key() == key
    }
}

/// A refused operation leaves the store as it was.
pub proof fn law_refused_operation_changes_nothing(op: Op, before: MockView, after: MockView)
    requires
        op.leads(before, after),
        !op.succeeds(before),
    ensures
        after == before,
{
}

/// An operation leaves what is stored under every other key as it was, in its own table and in
/// every other.
pub proof fn law_operations_touch_one_key(
    op: Op,
    before: MockView,
    after: MockView,
    other: MockKeyView,
)
    requires
        op.leads(before, after),
        other != op.key(),
    ensures
        after.schema == before.schema,
        after.stored(other) == before.stored(other),
{
}

/// A keyed operation is refused with [`ErrorView::InvalidRequest`], whatever is stored, when its
/// sort key is not given exactly when the schema has one.
pub proof fn law_operations_reject_a_mismatched_sort_key(op: Op, before: MockView)
    requires
        !before.schema.accepts(op.key().sk),
    ensures
        !op.succeeds(before),
        before.read(op.key()) == Err::<Option<(u64, serde_json::Value)>, ErrorView>(
            before.schema.sk_error(),
        ),
        match op {
            Op::Seed { key, version, payload } => before.seeded(key, version, payload).1 == Err::<
                (),
                ErrorView,
            >(before.schema.sk_error()),
            Op::Create { key, payload } => before.created(key, payload).1 == Err::<u64, ErrorView>(
                before.schema.sk_error(),
            ),
            Op::Put { key, expected, payload } => expected != 0 ==> before.replaced(
                key,
                expected,
                payload,
            ).1 == Err::<u64, ErrorView>(before.schema.sk_error()),
            Op::Overwrite { key, payload } => before.overwritten(key, payload).1 == Err::<
                u64,
                ErrorView,
            >(before.schema.sk_error()),
            Op::Count { key, attribute, delta } => !before.schema.reserves(attribute)
                ==> before.count(key, attribute, delta) == Err::<i64, ErrorView>(
                before.schema.sk_error(),
            ),
            Op::Delete { key } => before.deleted(key).1 == Err::<(), ErrorView>(
                before.schema.sk_error(),
            ),
        },
{
}

/// What a write stored, at the version that it returned, is what a read gives back.
pub proof fn law_a_read_gives_back_the_write(
    before: MockView,
    key: MockKeyView,
    version: u64,
    expected: u64,
    payload: serde_json::Value,
)
    ensures
        before.seeded(key, version, Ok(payload)).1 is Ok ==> before.seeded(
            key,
            version,
            Ok(payload),
        ).0.read(key) == Ok::<Option<(u64, serde_json::Value)>, ErrorView>(
            Some((version, payload)),
        ),
        before.created(key, Ok(payload)).1 matches Ok(v) ==> before.created(key, Ok(payload)).0.read(
            key,
        ) == Ok::<Option<(u64, serde_json::Value)>, ErrorView>(Some((v, payload))),
        before.replaced(key, expected, Ok(payload)).1 matches Ok(v) ==> before.replaced(
            key,
            expected,
            Ok(payload),
        ).0.read(key) == Ok::<Option<(u64, serde_json::Value)>, ErrorView>(Some((v, payload))),
        before.overwritten(key, Ok(payload)).1 matches Ok(v) ==> before.overwritten(
            key,
            Ok(payload),
        ).0.read(key) == Ok::<Option<(u64, serde_json::Value)>, ErrorView>(Some((v, payload))),
{
}

/// The read-modify-write loop, undisturbed: the version that a read returns is one that a put
/// accepts and moves one past, and a key that a read finds absent is one that a create accepts.
/// A record without a version is the exception, which a put refuses.
pub proof fn law_a_read_feeds_the_next_write(
    db: MockView,
    key: MockKeyView,
    payload: serde_json::Value,
)
    ensures
        db.read(key) matches Ok(Some((version, _))) ==> 0 < version < u64::MAX ==> db.replaced(
            key,
            version,
            Ok(payload),
        ).1 == Ok::<u64, ErrorView>((version + 1) as u64),
        db.read(key) matches Ok(None) ==> db.created(key, Ok(payload)).1 == Ok::<u64, ErrorView>(
            INITIAL_DATA_VERSION,
        ),
{
}

/// The version that a write returns is a token that the next put accepts.
pub proof fn law_a_returned_version_is_a_token(
    before: MockView,
    key: MockKeyView,
    expected: u64,
    payload: serde_json::Value,
    next: serde_json::Value,
)
    requires
        before.version_of(key) != Some(u64::MAX),
    ensures
        before.created(key, Ok(payload)).1 matches Ok(v) ==> before.created(
            key,
            Ok(payload),
        ).0.replaced(key, v, Ok(next)).1 is Ok,
        before.overwritten(key, Ok(payload)).1 matches Ok(v) ==> before.overwritten(
            key,
            Ok(payload),
        ).0.replaced(key, v, Ok(next)).1 is Ok,
        before.replaced(key, expected, Ok(payload)).1 matches Ok(v) ==> before.replaced(
            key,
            expected,
            Ok(payload),
        ).0.replaced(key, v, Ok(next)).1 is Ok,
{
}

/// A put never creates an item, and never removes one.
pub proof fn law_put_never_creates(
    before: MockView,
    key: MockKeyView,
    expected: u64,
    payload: Result<serde_json::Value, Seq<char>>,
)
    ensures
        before.replaced(key, expected, payload).0.items.dom() == before.items.dom(),
        !before.items.contains_key(key) ==> before.replaced(key, expected, payload).1 is Err,
{
    assert(before.replaced(key, expected, payload).0.items.dom() =~= before.items.dom());
}

/// Deleting is idempotent: deleting an absent key changes nothing, so deleting a key twice is
/// deleting it once. A deleted key reads as absent, and can be created again.
pub proof fn law_delete_is_idempotent(db: MockView, key: MockKeyView, payload: serde_json::Value)
    requires
        db.schema.accepts(key.sk),
    ensures
        !db.items.contains_key(key) ==> db.deleted(key).0 == db,
        db.deleted(key).0.deleted(key) == db.deleted(key),
        db.deleted(key).0.read(key) == Ok::<Option<(u64, serde_json::Value)>, ErrorView>(None),
        db.deleted(key).0.created(key, Ok(payload)).1 == Ok::<u64, ErrorView>(
            INITIAL_DATA_VERSION,
        ),
{
    assert(!db.items.contains_key(key) ==> db.items.remove(key) =~= db.items);
    assert(db.items.remove(key).remove(key) =~= db.items.remove(key));
}

// ---------------------------------------------------------------------------------------------
// Histories of the store
// ---------------------------------------------------------------------------------------------

/// Whether `ops` take the store through `states`.
pub open spec fn history(states: Seq<MockView>, ops: Seq<Op>) -> bool {
    &&& states.len() == ops.len() + 1
    &&& forall|i: int| 0 <= i < ops.len() ==> (#[trigger] ops[i]).leads(states[i], states[i + 1])
}

/// Whether none of the operations from `from` up to `to` may rewind the version under `key`.
pub open spec fn never_rewound(ops: Seq<Op>, key: MockKeyView, from: int, to: int) -> bool {
    forall|i: int| from <= i < to ==> !(#[trigger] ops[i]).may_rewind(key)
}

/// Operations keep the stored keys matching the schema, and never change the schema.
pub proof fn law_stored_keys_match_the_schema(states: Seq<MockView>, ops: Seq<Op>, at: int)
    requires
        history(states, ops),
        0 <= at < states.len(),
        states[0].keys_match_schema(),
    ensures
        states[at].schema == states[0].schema,
        states[at].keys_match_schema(),
    decreases at,
{
    if at > 0 {
        law_stored_keys_match_the_schema(states, ops, at - 1);
        assert(ops[at - 1].leads(states[at - 1], states[at]));
    }
}

/// Version zero is reserved: no operation stores an item at it, except seeding it there.
pub proof fn law_only_seeding_stores_version_zero(states: Seq<MockView>, ops: Seq<Op>, at: int)
    requires
        history(states, ops),
        0 <= at < states.len(),
        forall|key: MockKeyView| #[trigger]
            states[0].items.contains_key(key) ==> states[0].items[key].0 > 0,
        forall|i: int| 0 <= i < at ==> ((#[trigger] ops[i]) is Seed ==> ops[i]->Seed_version > 0),
    ensures
        forall|key: MockKeyView| #[trigger]
            states[at].items.contains_key(key) ==> states[at].items[key].0 > 0,
    decreases at,
{
    if at > 0 {
        law_only_seeding_stores_version_zero(states, ops, at - 1);
        let before = states[at - 1];
        let after = states[at];
        assert(ops[at - 1].leads(before, after));
        assert forall|key: MockKeyView| #[trigger]
            after.items.contains_key(key) implies after.items[key].0 > 0 by {
            if key != ops[at - 1].key() {
                law_operations_touch_one_key(ops[at - 1], before, after, key);
                assert(before.items.contains_key(key));
            }
        }
    }
}

/// The version under a key only moves forward, as long as the key is neither deleted nor seeded.
pub proof fn law_versions_never_rewind(
    states: Seq<MockView>,
    ops: Seq<Op>,
    key: MockKeyView,
    from: int,
    to: int,
)
    requires
        history(states, ops),
        0 <= from <= to < states.len(),
        never_rewound(ops, key, from, to),
        states[from].items.contains_key(key),
    ensures
        states[to].items.contains_key(key),
        states[from].items[key].0 <= states[to].items[key].0,
    decreases to - from,
{
    if from < to {
        law_versions_never_rewind(states, ops, key, from, to - 1);
        assert(ops[to - 1].leads(states[to - 1], states[to]));
        assert(!ops[to - 1].may_rewind(key));
    }
}

/// Every write that goes through moves the version under its key: to one past what was stored, or
/// to the initial version.
pub proof fn law_writes_advance_the_version(op: Op, before: MockView, after: MockView)
    requires
        op.leads(before, after),
        op.succeeds(before),
        !(op is Seed || op is Delete),
    ensures
        after.version_of(op.key()) == Some(before.next_version(op.key())),
        before.version_of(op.key()) matches Some(v) ==> before.next_version(op.key()) == v + 1,
{
}

/// A version that a write has moved past never becomes valid again: a put that expects it is
/// answered with a conflict and changes nothing, as long as the key is neither deleted nor
/// seeded.
pub proof fn law_a_spent_token_stays_spent(
    states: Seq<MockView>,
    ops: Seq<Op>,
    spender: int,
    at: int,
    token: u64,
    payload: serde_json::Value,
)
    requires
        history(states, ops),
        0 <= spender < at < states.len(),
        !(ops[spender] is Seed || ops[spender] is Delete),
        ops[spender].succeeds(states[spender]),
        states[spender].version_of(ops[spender].key()) == Some(token),
        never_rewound(ops, ops[spender].key(), spender, at),
        token > 0,
    ensures
        states[at].replaced(ops[spender].key(), token, Ok(payload)) == (
            states[at],
            Err::<u64, ErrorView>(
                ErrorView::Conflict {
                    pk: ops[spender].key().pk,
                    sk: ops[spender].key().sk,
                    expected_version: token,
                },
            ),
        ),
{
    let key = ops[spender].key();
    assert(ops[spender].leads(states[spender], states[spender + 1]));
    law_writes_advance_the_version(ops[spender], states[spender], states[spender + 1]);
    law_versions_never_rewind(states, ops, key, spender + 1, at);
    lemma_schema_is_kept(states, ops, spender, at);
}

/// Two callers that race to create a key: the one that comes second is told, whatever the first
/// and others have written to the key since, and its create changes nothing.
pub proof fn law_a_lost_bootstrap_is_reported(
    states: Seq<MockView>,
    ops: Seq<Op>,
    winner: int,
    at: int,
    payload: serde_json::Value,
)
    requires
        history(states, ops),
        0 <= winner < at < states.len(),
        ops[winner] is Create,
        ops[winner].succeeds(states[winner]),
        never_rewound(ops, ops[winner].key(), winner, at),
    ensures
        states[at].created(ops[winner].key(), Ok(payload)) == (
            states[at],
            Err::<u64, ErrorView>(
                ErrorView::AlreadyExists {
                    pk: ops[winner].key().pk,
                    sk: ops[winner].key().sk,
                },
            ),
        ),
{
    let key = ops[winner].key();
    assert(ops[winner].leads(states[winner], states[winner + 1]));
    law_versions_never_rewind(states, ops, key, winner + 1, at);
    lemma_schema_is_kept(states, ops, winner, at);
}

proof fn lemma_schema_is_kept(states: Seq<MockView>, ops: Seq<Op>, from: int, to: int)
    requires
        history(states, ops),
        0 <= from <= to < states.len(),
    ensures
        states[from].schema == states[to].schema,
    decreases to - from,
{
    if from < to {
        lemma_schema_is_kept(states, ops, from, to - 1);
        assert(ops[to - 1].leads(states[to - 1], states[to]));
    }
}

// ---------------------------------------------------------------------------------------------
// Counters
// ---------------------------------------------------------------------------------------------

/// A count that goes through is what the counter stands at afterwards, and every other counter
/// of the item stands where it stood.
pub proof fn law_a_count_is_kept(
    before: MockView,
    after: MockView,
    key: MockKeyView,
    attribute: Seq<char>,
    delta: i64,
    other: Seq<char>,
)
    requires
        before.counted(after, key, attribute, delta),
    ensures
        before.count(key, attribute, delta) matches Ok(n) ==> mock::counter_of(
            after.stored(key),
            attribute,
        ) == Some(n),
        before.count(key, attribute, delta) is Ok && other != attribute ==> mock::counter_of(
            after.stored(key),
            other,
        ) == mock::counter_of(before.stored(key), other),
{
}

/// Whether an operation adds to the counter in `attribute` of `key`.
pub open spec fn counts_in(op: Op, key: MockKeyView, attribute: Seq<char>) -> bool {
    op matches Op::Count { key: k, attribute: a, .. } && k == key && a == attribute
}

/// Whether the operations from `from` up to `to` change what is stored under `key` by counting
/// alone.
pub open spec fn only_counted(ops: Seq<Op>, key: MockKeyView, from: int, to: int) -> bool {
    forall|i: int| from <= i < to ==> ((#[trigger] ops[i]).key() == key ==> ops[i] is Count)
}

/// What the operations from `from` up to `to` that go through add to the counter in `attribute`
/// of `key`.
pub open spec fn added(
    states: Seq<MockView>,
    ops: Seq<Op>,
    key: MockKeyView,
    attribute: Seq<char>,
    from: int,
    to: int,
) -> int
    decreases to - from,
{
    if to <= from {
        0
    } else {
        let op = ops[to - 1];
        let delta: int = if counts_in(op, key, attribute) && op.succeeds(states[to - 1]) {
            op->Count_delta as int
        } else {
            0
        };
        added(states, ops, key, attribute, from, to - 1) + delta
    }
}

/// No increment is lost: a counter stands at where it stood plus everything that was added to it
/// since, whoever added it and whatever happened to other items and to other counters of the same
/// item in between.
pub proof fn law_counts_add_up(
    states: Seq<MockView>,
    ops: Seq<Op>,
    key: MockKeyView,
    attribute: Seq<char>,
    from: int,
    to: int,
)
    requires
        history(states, ops),
        0 <= from <= to < states.len(),
        only_counted(ops, key, from, to),
        mock::counter_of(states[from].stored(key), attribute) is Some,
    ensures
        mock::counter_of(states[to].stored(key), attribute) is Some,
        mock::counter_of(states[to].stored(key), attribute)->Some_0 == mock::counter_of(
            states[from].stored(key),
            attribute,
        )->Some_0 + added(states, ops, key, attribute, from, to),
    decreases to - from,
{
    if from < to {
        let op = ops[to - 1];
        let before = states[to - 1];
        let after = states[to];
        law_counts_add_up(states, ops, key, attribute, from, to - 1);
        assert(op.leads(before, after));
        if op.key() != key {
            law_operations_touch_one_key(op, before, after, key);
        } else if !op.succeeds(before) {
            law_refused_operation_changes_nothing(op, before, after);
        } else {
            law_a_count_is_kept(before, after, key, op->Count_attribute, op->Count_delta, attribute);
        }
    }
}

proof fn lemma_positive_counts_add_up(
    states: Seq<MockView>,
    ops: Seq<Op>,
    key: MockKeyView,
    attribute: Seq<char>,
    from: int,
    to: int,
)
    requires
        forall|i: int|
            from <= i < to && counts_in(#[trigger] ops[i], key, attribute)
                ==> ops[i]->Count_delta > 0,
    ensures
        added(states, ops, key, attribute, from, to) >= 0,
    decreases to - from,
{
    if from < to {
        lemma_positive_counts_add_up(states, ops, key, attribute, from, to - 1);
    }
}

/// A counter that is only ever added to hands out each number once: of two counts that go
/// through, the later one is given the larger number.
pub proof fn law_counters_hand_out_distinct_numbers(
    states: Seq<MockView>,
    ops: Seq<Op>,
    key: MockKeyView,
    attribute: Seq<char>,
    first: int,
    second: int,
)
    requires
        history(states, ops),
        0 <= first < second < ops.len(),
        only_counted(ops, key, first, second),
        forall|i: int|
            first <= i <= second && counts_in(#[trigger] ops[i], key, attribute)
                ==> ops[i]->Count_delta > 0,
        counts_in(ops[first], key, attribute),
        counts_in(ops[second], key, attribute),
        ops[first].succeeds(states[first]),
        ops[second].succeeds(states[second]),
    ensures
        states[first].count(key, attribute, ops[first]->Count_delta)->Ok_0 < states[second].count(
            key,
            attribute,
            ops[second]->Count_delta,
        )->Ok_0,
{
    let delta = ops[first]->Count_delta;
    assert(ops[first].leads(states[first], states[first + 1]));
    law_a_count_is_kept(states[first], states[first + 1], key, attribute, delta, attribute);
    law_counts_add_up(states, ops, key, attribute, first + 1, second);
    lemma_positive_counts_add_up(states, ops, key, attribute, first + 1, second);
}

/// How many of the operations from `from` up to `to` add to the counter in `attribute` of `key`.
pub open spec fn calls(
    ops: Seq<Op>,
    key: MockKeyView,
    attribute: Seq<char>,
    from: int,
    to: int,
) -> int
    decreases to - from,
{
    if to <= from {
        0
    } else {
        let call: int = if counts_in(ops[to - 1], key, attribute) {
            1
        } else {
            0
        };
        calls(ops, key, attribute, from, to - 1) + call
    }
}

/// Whether each of the operations from `from` up to `to` that adds to the counter in `attribute`
/// of `key` adds one, and goes through.
pub open spec fn allocated(
    states: Seq<MockView>,
    ops: Seq<Op>,
    key: MockKeyView,
    attribute: Seq<char>,
    from: int,
    to: int,
) -> bool {
    forall|i: int|
        from <= i < to && counts_in(#[trigger] ops[i], key, attribute) ==> ops[i]->Count_delta == 1
            && ops[i].succeeds(states[i])
}

proof fn lemma_ones_add_up(
    states: Seq<MockView>,
    ops: Seq<Op>,
    key: MockKeyView,
    attribute: Seq<char>,
    from: int,
    to: int,
)
    requires
        allocated(states, ops, key, attribute, from, to),
    ensures
        added(states, ops, key, attribute, from, to) == calls(ops, key, attribute, from, to),
        calls(ops, key, attribute, from, to) >= 0,
    decreases to - from,
{
    if from < to {
        lemma_ones_add_up(states, ops, key, attribute, from, to - 1);
    }
}

/// The `k`th call, counted from zero, is somewhere among the operations.
proof fn lemma_call(
    ops: Seq<Op>,
    key: MockKeyView,
    attribute: Seq<char>,
    from: int,
    to: int,
    k: int,
) -> (i: int)
    requires
        0 <= k < calls(ops, key, attribute, from, to),
    ensures
        from <= i < to,
        counts_in(ops[i], key, attribute),
        calls(ops, key, attribute, from, i) == k,
    decreases to - from,
{
    if k < calls(ops, key, attribute, from, to - 1) {
        lemma_call(ops, key, attribute, from, to - 1, k)
    } else {
        to - 1
    }
}

/// Callers that each add one to a counter are given the numbers behind where it stood, one each,
/// in the order of their calls, and none is left out: whatever happens to other items and to other
/// counters of the same item in between.
pub proof fn law_counters_allocate_every_number(
    states: Seq<MockView>,
    ops: Seq<Op>,
    key: MockKeyView,
    attribute: Seq<char>,
    from: int,
    to: int,
)
    requires
        history(states, ops),
        0 <= from <= to < states.len(),
        only_counted(ops, key, from, to),
        allocated(states, ops, key, attribute, from, to),
        mock::counter_of(states[from].stored(key), attribute) is Some,
    ensures
        ({
            let start = mock::counter_of(states[from].stored(key), attribute)->Some_0;
            let n = calls(ops, key, attribute, from, to);
            &&& forall|i: int|
                from <= i < to && counts_in(#[trigger] ops[i], key, attribute) ==> states[i].count(
                    key,
                    attribute,
                    1,
                ) == Ok::<i64, ErrorView>((start + calls(ops, key, attribute, from, i) + 1) as i64)
                    && start + calls(ops, key, attribute, from, i) + 1 <= i64::MAX
            &&& forall|number: int|
                start < number <= start + n ==> #[trigger] is_allocated(
                    states,
                    ops,
                    key,
                    attribute,
                    from,
                    to,
                    number,
                )
            &&& mock::counter_of(states[to].stored(key), attribute) is Some
            &&& mock::counter_of(states[to].stored(key), attribute)->Some_0 == start + n
        }),
{
    let start = mock::counter_of(states[from].stored(key), attribute)->Some_0;
    let n = calls(ops, key, attribute, from, to);
    law_counts_add_up(states, ops, key, attribute, from, to);
    lemma_ones_add_up(states, ops, key, attribute, from, to);
    assert forall|i: int|
        from <= i < to && counts_in(#[trigger] ops[i], key, attribute) implies states[i].count(
        key,
        attribute,
        1,
    ) == Ok::<i64, ErrorView>((start + calls(ops, key, attribute, from, i) + 1) as i64) && start
        + calls(ops, key, attribute, from, i) + 1 <= i64::MAX by {
        law_counts_add_up(states, ops, key, attribute, from, i);
        lemma_ones_add_up(states, ops, key, attribute, from, i);
    }
    assert forall|number: int| start < number <= start + n implies #[trigger] is_allocated(
        states,
        ops,
        key,
        attribute,
        from,
        to,
        number,
    ) by {
        let i = lemma_call(ops, key, attribute, from, to, number - start - 1);
        assert(counts_in(ops[i], key, attribute));
    }
}

/// Whether one of the operations from `from` up to `to` is given `number` by the counter in
/// `attribute` of `key`.
pub open spec fn is_allocated(
    states: Seq<MockView>,
    ops: Seq<Op>,
    key: MockKeyView,
    attribute: Seq<char>,
    from: int,
    to: int,
    number: int,
) -> bool {
    exists|i: int|
        from <= i < to && counts_in(#[trigger] ops[i], key, attribute) && states[i].count(
            key,
            attribute,
            ops[i]->Count_delta,
        ) == Ok::<i64, ErrorView>(number as i64)
}

/// Calls in a row that each add one to a counter are given the numbers in a row behind where it
/// stood.
pub proof fn law_counts_in_a_row_are_consecutive(
    states: Seq<MockView>,
    ops: Seq<Op>,
    key: MockKeyView,
    attribute: Seq<char>,
    from: int,
    to: int,
)
    requires
        history(states, ops),
        0 <= from <= to < states.len(),
        forall|i: int| from <= i < to ==> counts_in(#[trigger] ops[i], key, attribute),
        allocated(states, ops, key, attribute, from, to),
        mock::counter_of(states[from].stored(key), attribute) is Some,
    ensures
        ({
            let start = mock::counter_of(states[from].stored(key), attribute)->Some_0;
            &&& start + (to - from) <= i64::MAX
            &&& forall|i: int|
                from <= i < to ==> (#[trigger] states[i]).count(key, attribute, 1) == Ok::<
                    i64,
                    ErrorView,
                >((start + (i - from) + 1) as i64)
            &&& mock::counter_of(states[to].stored(key), attribute) == Some(
                (start + (to - from)) as i64,
            )
        }),
{
    law_counters_allocate_every_number(states, ops, key, attribute, from, to);
    lemma_every_call(ops, key, attribute, from, to);
    assert forall|i: int| from <= i < to implies (#[trigger] states[i]).count(key, attribute, 1)
        == Ok::<i64, ErrorView>(
        (mock::counter_of(states[from].stored(key), attribute)->Some_0 + (i - from) + 1) as i64,
    ) by {
        assert(counts_in(ops[i], key, attribute));
        lemma_every_call(ops, key, attribute, from, i);
    }
}

proof fn lemma_every_call(
    ops: Seq<Op>,
    key: MockKeyView,
    attribute: Seq<char>,
    from: int,
    to: int,
)
    requires
        from <= to,
        forall|i: int| from <= i < to ==> counts_in(#[trigger] ops[i], key, attribute),
    ensures
        calls(ops, key, attribute, from, to) == to - from,
    decreases to - from,
{
    if from < to {
        lemma_every_call(ops, key, attribute, from, to - 1);
    }
}

// ---------------------------------------------------------------------------------------------
// Queries
// ---------------------------------------------------------------------------------------------

/// A query of the primary index without a condition finds what is stored under the partition
/// key in the table, and nothing else.
pub proof fn law_a_primary_query_finds_the_partition(
    db: MockView,
    primary: PrimaryIndex,
    pk: Seq<char>,
    table: Seq<char>,
    key: MockKeyView,
)
    ensures
        db.found_by(
            QueryView { index: AnyIndex::Primary(primary), pk, condition: None, table },
            key,
        ) <==> db.items.contains_key(key) && key.table == table && key.pk == pk,
{
}

/// A query has no rows exactly when it finds nothing.
pub proof fn law_a_query_without_a_match_is_empty(
    db: MockView,
    query: QueryView,
    rows: Seq<(u64, serde_json::Value)>,
)
    requires
        db.answers(query, rows),
    ensures
        rows.len() == 0 <==> forall|key: MockKeyView| !#[trigger] db.found_by(query, key),
{
    let keys = choose|keys: Seq<MockKeyView>| #[trigger]
        db.lists(query, keys) && rows == db.rows(keys);
    if rows.len() > 0 {
        assert(keys.contains(keys[0]));
    }
    assert forall|key: MockKeyView| #[trigger] db.found_by(query, key) implies rows.len() > 0 by {
        assert(keys.contains(key));
    }
}

/// Where no two of the items that a query finds have the same sort key, it has one answer.
pub proof fn law_distinct_sort_keys_fix_the_answer(
    db: MockView,
    query: QueryView,
    a: Seq<(u64, serde_json::Value)>,
    b: Seq<(u64, serde_json::Value)>,
)
    requires
        db.answers(query, a),
        db.answers(query, b),
        forall|x: MockKeyView, y: MockKeyView|
            #![trigger db.found_by(query, x), db.found_by(query, y)]
            db.found_by(query, x) && db.found_by(query, y) && x != y ==> db.order_of(query, x)
                != db.order_of(query, y),
    ensures
        a == b,
{
    let p = choose|p: Seq<MockKeyView>| #[trigger] db.lists(query, p) && a == db.rows(p);
    let q = choose|q: Seq<MockKeyView>| #[trigger] db.lists(query, q) && b == db.rows(q);
    lemma_same_listing(db, query, p, q);
}

/// A query of the primary index has one answer: within a partition, the sort key tells items
/// apart.
pub proof fn law_a_primary_query_has_one_answer(
    db: MockView,
    query: QueryView,
    a: Seq<(u64, serde_json::Value)>,
    b: Seq<(u64, serde_json::Value)>,
)
    requires
        db.keys_match_schema(),
        query.index is Primary,
        db.answers(query, a),
        db.answers(query, b),
    ensures
        a == b,
{
    assert forall|x: MockKeyView, y: MockKeyView|
        #![trigger db.found_by(query, x), db.found_by(query, y)]
        db.found_by(query, x) && db.found_by(query, y) && x != y implies db.order_of(query, x)
        != db.order_of(query, y) by {
        assert(db.schema.accepts(x.sk) && db.schema.accepts(y.sk));
        assert(x.sk is Some ==> db.order_of(query, x) == x.sk->Some_0);
        assert(y.sk is Some ==> db.order_of(query, y) == y.sk->Some_0);
        assert(x.sk != y.sk) by {
            assert(x =~= y <==> x.sk == y.sk);
        }
    }
    law_distinct_sort_keys_fix_the_answer(db, query, a, b);
}

proof fn lemma_same_listing(
    db: MockView,
    query: QueryView,
    p: Seq<MockKeyView>,
    q: Seq<MockKeyView>,
)
    requires
        db.lists(query, p),
        db.lists(query, q),
        forall|x: MockKeyView, y: MockKeyView|
            #![trigger db.found_by(query, x), db.found_by(query, y)]
            db.found_by(query, x) && db.found_by(query, y) && x != y ==> db.order_of(query, x)
                != db.order_of(query, y),
    ensures
        p == q,
{
    lemma_agree_up_to(db, query, p, q, p.len() as int);
    lemma_agree_up_to(db, query, q, p, q.len() as int);
    assert(p =~= q);
}

proof fn lemma_agree_up_to(
    db: MockView,
    query: QueryView,
    p: Seq<MockKeyView>,
    q: Seq<MockKeyView>,
    n: int,
)
    requires
        db.lists(query, p),
        db.lists(query, q),
        forall|x: MockKeyView, y: MockKeyView|
            #![trigger db.found_by(query, x), db.found_by(query, y)]
            db.found_by(query, x) && db.found_by(query, y) && x != y ==> db.order_of(query, x)
                != db.order_of(query, y),
        0 <= n <= p.len(),
    ensures
        n <= q.len(),
        forall|i: int| 0 <= i < n ==> p[i] == q[i],
    decreases n,
{
    if n > 0 {
        let m = n - 1;
        lemma_agree_up_to(db, query, p, q, m);
        let x = p[m];
        assert(p.contains(x));
        assert(q.contains(x));
        let j = choose|j: int| 0 <= j < q.len() && q[j] == x;
        if j < m {
            assert(p[j] == q[j]);
            assert(false);
        }
        if j > m {
            let y = q[m];
            assert(q.contains(y));
            assert(p.contains(y));
            let k = choose|k: int| 0 <= k < p.len() && p[k] == y;
            if k < m {
                assert(p[k] == q[k]);
                assert(false);
            }
            assert(k > m);
            assert(text::text_le(db.order_of(query, p[m]), db.order_of(query, p[k])));
            assert(text::text_le(db.order_of(query, q[m]), db.order_of(query, q[j])));
            text::lemma_text_le_antisymmetric(db.order_of(query, x), db.order_of(query, y));
            assert(db.found_by(query, x) && db.found_by(query, y));
            assert(false);
        }
    }
}

// ---------------------------------------------------------------------------------------------
// Guarded writes
// ---------------------------------------------------------------------------------------------

/// What an unconditional write comes to, when its attempts read and are answered what `trace`
/// says; `None` while it has not come to an end.
pub open spec fn overwrite_run(
    attempt: guarded::AttemptView,
    trace: Seq<(Option<u64>, Result<(), reply::PutFailure>)>,
) -> Option<Result<u64, ErrorView>>
    decreases trace.len(),
{
    if trace.len() == 0 {
        None
    } else {
        match guarded::settled(guarded::planned(attempt, trace[0].0), trace[0].1) {
            guarded::OutcomeView::Written(version) => Some(Ok(version)),
            guarded::OutcomeView::Failed(error) => Some(Err(error)),
            guarded::OutcomeView::Retry(next) => overwrite_run(next, trace.drop_first()),
        }
    }
}

/// Whether the first `n` attempts lost a race.
pub open spec fn races_lost(
    trace: Seq<(Option<u64>, Result<(), reply::PutFailure>)>,
    n: int,
) -> bool {
    forall|i: int|
        0 <= i < n ==> (#[trigger] trace[i]).1 == Err::<(), reply::PutFailure>(
            reply::PutFailure::ConditionalCheckFailed,
        )
}

/// An unconditional write that loses races and is answered within its attempts returns what that
/// answer means: the version one past the one its last attempt read (or the initial version, for
/// an absent item), or the failure of the request.
pub proof fn law_overwrite_ends_at_the_first_answer(
    attempt: guarded::AttemptView,
    trace: Seq<(Option<u64>, Result<(), reply::PutFailure>)>,
    n: int,
)
    requires
        0 <= n < attempt.attempts,
        n < trace.len(),
        races_lost(trace, n),
    ensures
        trace[n].1 is Ok ==> overwrite_run(attempt, trace) == Some(
            Ok::<u64, ErrorView>(guarded::plan_for(trace[n].0).0),
        ),
        trace[n].1 matches Err(reply::PutFailure::Failed(reason)) ==> overwrite_run(attempt, trace)
            == Some(
            Err::<u64, ErrorView>(
                reply::failed_on_item("PutItem"@, attempt.pk, attempt.sk, reason@),
            ),
        ),
    decreases n,
{
    if n > 0 {
        assert(trace[0].1 == Err::<(), reply::PutFailure>(
            reply::PutFailure::ConditionalCheckFailed,
        ));
        let next = guarded::settled(guarded::planned(attempt, trace[0].0), trace[0].1)->Retry_0;
        let rest = trace.drop_first();
        assert forall|i: int| 0 <= i < n - 1 implies (#[trigger] rest[i]).1 == Err::<
            (),
            reply::PutFailure,
        >(reply::PutFailure::ConditionalCheckFailed) by {
            assert(rest[i] == trace[i + 1]);
        }
        assert(rest[n - 1] == trace[n]);
        law_overwrite_ends_at_the_first_answer(next, rest, n - 1);
    }
}

/// An unconditional write that loses a race in each of its attempts gives up, with a conflict
/// that carries the version its last attempt read.
pub proof fn law_overwrite_gives_up(
    attempt: guarded::AttemptView,
    trace: Seq<(Option<u64>, Result<(), reply::PutFailure>)>,
)
    requires
        0 < attempt.attempts <= trace.len(),
        races_lost(trace, attempt.attempts as int),
    ensures
        overwrite_run(attempt, trace) == Some(
            Err::<u64, ErrorView>(
                ErrorView::Conflict {
                    pk: attempt.pk,
                    sk: attempt.sk,
                    expected_version: guarded::last_seen(
                        guarded::plan_for(trace[attempt.attempts - 1].0).1,
                    ),
                },
            ),
        ),
    decreases attempt.attempts,
{
    assert(trace[0].1 == Err::<(), reply::PutFailure>(reply::PutFailure::ConditionalCheckFailed));
    if attempt.attempts > 1 {
        let next = guarded::settled(guarded::planned(attempt, trace[0].0), trace[0].1)->Retry_0;
        let rest = trace.drop_first();
        let n = attempt.attempts - 1;
        assert forall|i: int| 0 <= i < n implies (#[trigger] rest[i]).1 == Err::<
            (),
            reply::PutFailure,
        >(reply::PutFailure::ConditionalCheckFailed) by {
            assert(rest[i] == trace[i + 1]);
        }
        assert(rest[n - 1] == trace[n]);
        law_overwrite_gives_up(next, rest);
    }
}

/// The version that a write lands at is past the one that its guard pins, so no write rewinds it.
pub proof fn law_guarded_writes_advance(current: Option<u64>)
    requires
        current != Some(u64::MAX),
    ensures
        guarded::plan_for(current).0 == guarded::last_seen(guarded::plan_for(current).1) + 1,
        current matches Some(version) ==> guarded::plan_for(current).1
            == WriteCondition::VersionIs(version),
        current is None ==> guarded::plan_for(current).1 == WriteCondition::MustNotExist,
{
}

/// Different guards are sent as different expressions.
pub proof fn law_guards_are_told_apart(
    schema: PrimaryIndex,
    a: WriteCondition,
    b: WriteCondition,
)
    requires
        request::guard_expression(schema, a) == request::guard_expression(schema, b),
    ensures
        a == b,
{
    reveal_strlit("attribute_not_exists(#pk)");
    reveal_strlit("attribute_exists(#pk) AND attribute_not_exists(#version)");
    reveal_strlit("#version = :expected");
    assert("attribute_not_exists(#pk)"@.len() == 25);
    assert("attribute_exists(#pk) AND attribute_not_exists(#version)"@.len() == 56);
    assert("#version = :expected"@.len() == 20);
    if a is VersionIs && b is VersionIs && a->0 != 0 && b->0 != 0 {
        let x = request::guard_expression(schema, a).values[0].1;
        let y = request::guard_expression(schema, b).values[0].1;
        assert(x == ScalarView::N(text::decimal(a->0 as nat)));
        assert(y == ScalarView::N(text::decimal(b->0 as nat)));
        text::law_u64_text_round_trips(a->0);
        text::law_u64_text_round_trips(b->0);
    }
}

/// An item that is written at a version reads back as stored at that version, whatever its payload
/// holds, as long as no key attribute is named like the version's.
pub proof fn law_a_written_version_reads_back<V>(
    schema: PrimaryIndex,
    pk: Seq<char>,
    sk: Option<Seq<char>>,
    version: u64,
    contents: Map<Seq<char>, AttributeView<V>>,
)
    requires
        schema.keys.pk_identifier@ != DATA_VERSION_ATTRIBUTE@,
        text::chars_of(schema.keys.sk_identifier) != Some(DATA_VERSION_ATTRIBUTE@),
    ensures
        reply::stored_version(
            request::built_item(schema, pk, schema.sk_attribute(sk), version, contents),
        ) == Some(version),
{
    text::law_u64_text_round_trips(version);
}

/// An item that carries no version reads as version zero, and a write that expects zero is guarded
/// by the version being absent and lands at the initial version: it upgrades the item.
pub proof fn law_an_unversioned_item_is_upgraded<V>(
    schema: PrimaryIndex,
    item: Map<Seq<char>, AttributeView<V>>,
)
    requires
        !item.contains_key(DATA_VERSION_ATTRIBUTE@),
    ensures
        reply::stored_version(item) == Some(0u64),
        guarded::plan_for(reply::stored_version(item)).0 == INITIAL_DATA_VERSION,
        request::guard_expression(
            schema,
            guarded::plan_for(reply::stored_version(item)).1,
        ).text == "attribute_exists(#pk) AND attribute_not_exists(#version)"@,
{
}

/// An item carries the key that it was built for, whatever its payload holds under those names.
pub proof fn law_an_item_carries_its_key<V>(
    schema: PrimaryIndex,
    pk: Seq<char>,
    sk: Option<Seq<char>>,
    version: u64,
    contents: Map<Seq<char>, AttributeView<V>>,
)
    requires
        schema.accepts(sk),
        text::chars_of(schema.keys.sk_identifier) != Some(schema.keys.pk_identifier@),
    ensures
        forall|i: int|
            0 <= i < request::key_attributes(schema, pk, schema.sk_attribute(sk)).len() ==> {
                let (name, value) = #[trigger] request::key_attributes(
                    schema,
                    pk,
                    schema.sk_attribute(sk),
                )[i];
                let item = request::built_item(
                    schema,
                    pk,
                    schema.sk_attribute(sk),
                    version,
                    contents,
                );
                item.contains_key(name) && item[name] == AttributeView::<V>::Scalar(value)
            },
{
}

// ---------------------------------------------------------------------------------------------
// Expressions
// ---------------------------------------------------------------------------------------------

/// Whether `word` stands in `text` somewhere.
pub open spec fn occurs(text: Seq<char>, word: Seq<char>) -> bool {
    exists|i: int|
        0 <= i <= text.len() - word.len() && #[trigger] text.subrange(i, i + word.len()) == word
}

/// Whether the expression references every placeholder that it declares.
pub open spec fn uses_what_it_declares(expression: ExpressionView) -> bool {
    &&& forall|i: int|
        0 <= i < expression.names.len() ==> occurs(
            expression.text,
            (#[trigger] expression.names[i]).0,
        )
    &&& forall|i: int|
        0 <= i < expression.values.len() ==> occurs(
            expression.text,
            (#[trigger] expression.values[i]).0,
        )
}

proof fn lemma_occurs(text: Seq<char>, word: Seq<char>, at: int)
    requires
        0 <= at <= text.len() - word.len(),
        forall|i: int| 0 <= i < word.len() ==> text[at + i] == #[trigger] word[i],
    ensures
        occurs(text, word),
{
    assert(text.subrange(at, at + word.len()) =~= word);
}

/// A guard declares only the placeholders that it references; the service rejects a request that
/// declares others.
pub proof fn law_guards_use_what_they_declare(schema: PrimaryIndex, condition: WriteCondition)
    ensures
        uses_what_it_declares(request::guard_expression(schema, condition)),
{
    reveal_strlit("#pk");
    reveal_strlit("#version");
    reveal_strlit(":expected");
    match condition {
        WriteCondition::MustNotExist => {
            reveal_strlit("attribute_not_exists(#pk)");
            lemma_occurs("attribute_not_exists(#pk)"@, "#pk"@, 21);
        },
        WriteCondition::VersionIs(expected) => {
            if expected == 0 {
                reveal_strlit("attribute_exists(#pk) AND attribute_not_exists(#version)");
                lemma_occurs(
                    "attribute_exists(#pk) AND attribute_not_exists(#version)"@,
                    "#pk"@,
                    17,
                );
                lemma_occurs(
                    "attribute_exists(#pk) AND attribute_not_exists(#version)"@,
                    "#version"@,
                    47,
                );
            } else {
                reveal_strlit("#version = :expected");
                lemma_occurs("#version = :expected"@, "#version"@, 0);
                lemma_occurs("#version = :expected"@, ":expected"@, 11);
            }
        },
    }
}

/// A read of the version declares only the placeholders that it references.
pub proof fn law_version_reads_use_what_they_declare(schema: PrimaryIndex)
    ensures
        uses_what_it_declares(request::version_projection(schema)),
{
    reveal_strlit("#pk");
    reveal_strlit("#version");
    reveal_strlit("#pk, #version");
    lemma_occurs("#pk, #version"@, "#pk"@, 0);
    lemma_occurs("#pk, #version"@, "#version"@, 5);
}

/// An update of a counter declares only the placeholders that it references.
pub proof fn law_counter_updates_use_what_they_declare(attribute: Seq<char>, delta: i64)
    ensures
        uses_what_it_declares(request::counter_update(attribute, delta)),
{
    reveal_strlit("#counter");
    reveal_strlit("#version");
    reveal_strlit(":delta");
    reveal_strlit(":one");
    reveal_strlit("ADD #counter :delta, #version :one");
    lemma_occurs("ADD #counter :delta, #version :one"@, "#counter"@, 4);
    lemma_occurs("ADD #counter :delta, #version :one"@, ":delta"@, 13);
    lemma_occurs("ADD #counter :delta, #version :one"@, "#version"@, 21);
    lemma_occurs("ADD #counter :delta, #version :one"@, ":one"@, 30);
}

/// A query declares only the placeholders that it references.
pub proof fn law_queries_use_what_they_declare(
    schema: PrimaryIndex,
    index: AnyIndex,
    pk: Seq<char>,
    condition: Option<SortKeyCondition>,
)
    ensures
        uses_what_it_declares(request::query_expression(schema, index, pk, condition)),
{
    reveal_strlit("#pk");
    reveal_strlit("#sk");
    reveal_strlit(":pk");
    reveal_strlit(":sk_value");
    reveal_strlit(":sk_low");
    reveal_strlit(":sk_high");
    reveal_strlit("#pk = :pk");
    reveal_strlit(" AND begins_with(#sk, :sk_value)");
    reveal_strlit(" AND #sk BETWEEN :sk_low AND :sk_high");
    let expression = request::query_expression(schema, index, pk, condition);
    lemma_occurs(expression.text, "#pk"@, 0);
    lemma_occurs(expression.text, ":pk"@, 6);
    match (index.sk_name(), condition) {
        (Some(_), Some(SortKeyCondition::Prefix(_))) => {
            lemma_occurs(expression.text, "#sk"@, 26);
            lemma_occurs(expression.text, ":sk_value"@, 31);
        },
        (Some(_), Some(SortKeyCondition::Between(_, _))) => {
            lemma_occurs(expression.text, "#sk"@, 14);
            lemma_occurs(expression.text, ":sk_low"@, 26);
            lemma_occurs(expression.text, ":sk_high"@, 38);
        },
        _ => {},
    }
}

// ---------------------------------------------------------------------------------------------
// The two backends
// ---------------------------------------------------------------------------------------------

/// A key that one backend rejects is rejected by the other, with the same error.
pub proof fn law_backends_agree_on_keys(db: MockView, key: MockKeyView)
    ensures
        db.read(key) is Err <==> request::keyed_request(db.schema, key.pk, key.sk) is Err,
        db.read(key) matches Err(error) ==> request::keyed_request(db.schema, key.pk, key.sk)
            == Err::<Seq<(Seq<char>, ScalarView)>, ErrorView>(error),
{
}

/// A write lands at the same version on both backends, given the same stored version.
pub proof fn law_backends_advance_alike(db: MockView, key: MockKeyView)
    ensures
        db.next_version(key) == guarded::plan_for(db.version_of(key)).0,
{
}

/// A counter that one backend refuses to keep in an attribute, or under a key, is refused by the
/// other with the same error.
pub proof fn law_backends_refuse_the_same_counters(
    db: MockView,
    key: MockKeyView,
    attribute: Seq<char>,
    delta: i64,
)
    ensures
        request::counter_rejection(db.schema, key.sk, attribute) matches Some(error) ==> db.count(
            key,
            attribute,
            delta,
        ) == Err::<i64, ErrorView>(error),
{
}

/// A query that one backend refuses is refused by the other: for the lack of a sort key with the
/// same error, and for a condition that is not implemented with one that names the backend.
pub proof fn law_backends_refuse_the_same_queries(
    index: AnyIndex,
    condition: Option<SortKeyCondition>,
    a: Seq<char>,
    b: Seq<char>,
)
    ensures
        schema::query_rejection(index, condition, a) is Some <==> schema::query_rejection(
            index,
            condition,
            b,
        ) is Some,
        schema::query_rejection(index, condition, a) matches Some(
            ErrorView::InvalidRequest(message),
        ) ==> schema::query_rejection(index, condition, b) == Some(
            ErrorView::InvalidRequest(message),
        ),
{
}

/// What a write ends as: its version, or its failure.
pub open spec fn ended(outcome: guarded::OutcomeView) -> Option<Result<u64, ErrorView>> {
    match outcome {
        guarded::OutcomeView::Written(version) => Some(Ok(version)),
        guarded::OutcomeView::Failed(error) => Some(Err(error)),
        guarded::OutcomeView::Retry(_) => None,
    }
}

/// What a write ends as, and what it leaves stored, where the service holds `item` and answers as
/// the guard asks.
pub open spec fn write_run<V>(
    write: Result<guarded::WriteView, ErrorView>,
    item: Option<Map<Seq<char>, AttributeView<V>>>,
    contents: Map<Seq<char>, AttributeView<V>>,
) -> (Option<Result<u64, ErrorView>>, Option<Map<Seq<char>, AttributeView<V>>>) {
    match write {
        Ok(write) => (
            ended(guarded::settled(write, service::put_answer(write.condition, item))),
            service::item_after_put(write, item, contents),
        ),
        Err(error) => (Some(Err(error)), item),
    }
}

/// A guarded write ends on the service as it ends on the store, where both hold the item at the
/// same version, and leaves it at the same version on both: creating, putting with an expected
/// version above zero, and overwriting undisturbed, as long as no version is at the limit of its
/// type.
pub proof fn law_backends_end_writes_alike<V>(
    db: MockView,
    key: MockKeyView,
    expected: u64,
    payload: serde_json::Value,
    item: Option<Map<Seq<char>, AttributeView<V>>>,
    contents: Map<Seq<char>, AttributeView<V>>,
)
    requires
        service::is_stored_at(item, db.version_of(key)),
        db.schema.keys.pk_identifier@ != DATA_VERSION_ATTRIBUTE@,
        text::chars_of(db.schema.keys.sk_identifier) != Some(DATA_VERSION_ATTRIBUTE@),
    ensures
        ({
            let (after, result) = db.created(key, Ok(payload));
            let (ending, stored) = write_run(
                guarded::begun_create(db.schema, key.pk, key.sk),
                item,
                contents,
            );
            ending == Some(result) && service::is_stored_at(stored, after.version_of(key))
        }),
        expected > 0 && (expected == u64::MAX ==> db.version_of(key) != Some(u64::MAX)) ==> {
            let (after, result) = db.replaced(key, expected, Ok(payload));
            let (ending, stored) = write_run(
                guarded::begun_put(db.schema, key.pk, key.sk, expected),
                item,
                contents,
            );
            ending == Some(result) && service::is_stored_at(stored, after.version_of(key))
        },
        db.version_of(key) != Some(u64::MAX) ==> {
            let (after, result) = db.overwritten(key, Ok(payload));
            let (ending, stored) = write_run(
                match guarded::begun_overwrite(db.schema, key.pk, key.sk) {
                    Ok(attempt) => Ok(guarded::planned(attempt, service::version_read(item))),
                    Err(error) => Err(error),
                },
                item,
                contents,
            );
            ending == Some(result) && service::is_stored_at(stored, after.version_of(key))
        },
{
    text::law_u64_text_round_trips(expected);
    if let Some(version) = db.version_of(key) {
        text::law_u64_text_round_trips(version);
    }
}

/// A count leaves the item at the same version on the service as on the store, where both held it
/// at the same version.
pub proof fn law_backends_count_versions_alike<V>(
    before: MockView,
    after: MockView,
    key: MockKeyView,
    attribute: Seq<char>,
    delta: i64,
    item: Option<Map<Seq<char>, AttributeView<V>>>,
)
    requires
        before.counted(after, key, attribute, delta),
        before.count(key, attribute, delta) is Ok,
        before.version_of(key) != Some(u64::MAX),
        service::is_stored_at(item, before.version_of(key)),
        before.schema.keys.pk_identifier@ != DATA_VERSION_ATTRIBUTE@,
        text::chars_of(before.schema.keys.sk_identifier) != Some(DATA_VERSION_ATTRIBUTE@),
    ensures
        service::is_stored_at(
            Some(
                service::item_after_update(
                    before.schema,
                    key.pk,
                    key.sk,
                    item,
                    request::counter_update(attribute, delta),
                ),
            ),
            after.version_of(key),
        ),
{
    lemma_counter_update(before.schema, key.pk, key.sk, item, attribute, delta);
    if let Some(version) = before.version_of(key) {
        text::lemma_signed_decimal(version as int);
    }
}

// ---------------------------------------------------------------------------------------------
// Counters on the service
// ---------------------------------------------------------------------------------------------

proof fn lemma_counter_update<V>(
    schema: PrimaryIndex,
    pk: Seq<char>,
    sk: Option<Seq<char>>,
    item: Option<Map<Seq<char>, AttributeView<V>>>,
    attribute: Seq<char>,
    delta: i64,
)
    requires
        attribute != DATA_VERSION_ATTRIBUTE@,
    ensures
        ({
            let before = service::item_to_update(schema, pk, sk, item);
            let count = service::integer_in(before, attribute)->Some_0 + delta;
            let version = service::integer_in(before, DATA_VERSION_ATTRIBUTE@)->Some_0 + 1;
            service::item_after_update(
                schema,
                pk,
                sk,
                item,
                request::counter_update(attribute, delta),
            ) == before.insert(
                attribute,
                AttributeView::<V>::Scalar(ScalarView::N(text::signed_decimal(count))),
            ).insert(
                DATA_VERSION_ATTRIBUTE@,
                AttributeView::<V>::Scalar(ScalarView::N(text::signed_decimal(version))),
            )
        }),
{
    expressions::law_a_counter_update_adds(
        attribute,
        delta,
        service::item_to_update(schema, pk, sk, item),
    );
}

/// The counter in `attribute` of what the service holds; an absent item counts from zero.
pub open spec fn service_counter<V>(
    item: Option<Map<Seq<char>, AttributeView<V>>>,
    attribute: Seq<char>,
) -> Option<int> {
    match item {
        Some(item) => service::integer_in(item, attribute),
        None => Some(0),
    }
}

/// A count on the service returns where the counter stood plus what was added, and the counter
/// stands there afterwards.
pub proof fn law_a_service_count_returns_the_sum<V>(
    schema: PrimaryIndex,
    pk: Seq<char>,
    sk: Option<Seq<char>>,
    item: Option<Map<Seq<char>, AttributeView<V>>>,
    attribute: Seq<char>,
    delta: i64,
    shown: Seq<char>,
)
    requires
        !schema.reserves(attribute),
        service_counter(item, attribute) is Some,
        i64::MIN <= service_counter(item, attribute)->Some_0 + delta <= i64::MAX,
    ensures
        ({
            let update = request::counter_update(attribute, delta);
            let after = service::item_after_update(schema, pk, sk, item, update);
            let sum = service_counter(item, attribute)->Some_0 + delta;
            &&& service_counter(Some(after), attribute) == Some(sum)
            &&& reply::returned_count(pk, attribute, service::touched(after, update), shown)
                == Ok::<i64, ErrorView>(sum as i64)
        }),
{
    let update = request::counter_update(attribute, delta);
    let after = service::item_after_update(schema, pk, sk, item, update);
    let sum = service_counter(item, attribute)->Some_0 + delta;
    lemma_counter_update(schema, pk, sk, item, attribute, delta);
    text::lemma_signed_decimal(sum);
    assert(update.names[0].1 == attribute);
    assert(service::touches(update, attribute));
}

/// Callers that each add one to a counter on the service, which takes one after the other, are
/// given the numbers in a row behind where it stood: none is given twice, and none is left out.
pub proof fn law_service_counts_are_consecutive<V>(
    schema: PrimaryIndex,
    pk: Seq<char>,
    sk: Option<Seq<char>>,
    items: Seq<Option<Map<Seq<char>, AttributeView<V>>>>,
    attribute: Seq<char>,
    shown: Seq<char>,
)
    requires
        items.len() > 0,
        !schema.reserves(attribute),
        forall|i: int|
            1 <= i < items.len() ==> #[trigger] items[i] == Some(
                service::item_after_update(
                    schema,
                    pk,
                    sk,
                    items[i - 1],
                    request::counter_update(attribute, 1),
                ),
            ),
        service_counter(items[0], attribute) is Some,
        i64::MIN <= service_counter(items[0], attribute)->Some_0,
        service_counter(items[0], attribute)->Some_0 + items.len() - 1 <= i64::MAX,
    ensures
        ({
            let start = service_counter(items[0], attribute)->Some_0;
            &&& forall|i: int|
                1 <= i < items.len() ==> reply::returned_count(
                    pk,
                    attribute,
                    service::touched(
                        (#[trigger] items[i])->Some_0,
                        request::counter_update(attribute, 1),
                    ),
                    shown,
                ) == Ok::<i64, ErrorView>((start + i) as i64)
            &&& service_counter(items.last(), attribute) == Some(start + items.len() - 1)
        }),
    decreases items.len(),
{
    let n = items.len() - 1;
    let start = service_counter(items[0], attribute)->Some_0;
    if n > 0 {
        let rest = items.drop_last();
        law_service_counts_are_consecutive(schema, pk, sk, rest, attribute, shown);
        assert(rest.last() == items[n - 1]);
        law_a_service_count_returns_the_sum(schema, pk, sk, items[n - 1], attribute, 1, shown);
        assert(items[n] == Some(
            service::item_after_update(
                schema,
                pk,
                sk,
                items[n - 1],
                request::counter_update(attribute, 1),
            ),
        ));
        assert forall|i: int| 1 <= i < items.len() implies reply::returned_count(
            pk,
            attribute,
            service::touched(
                (#[trigger] items[i])->Some_0,
                request::counter_update(attribute, 1),
            ),
            shown,
        ) == Ok::<i64, ErrorView>((start + i) as i64) by {
            if i < n {
                assert(rest[i] == items[i]);
            }
        }
    }
}

// ---------------------------------------------------------------------------------------------
// Pages
// ---------------------------------------------------------------------------------------------

/// What a query under `pk` that has brought `rows` comes to, when the requests for its pages are
/// answered `replies`; `None` while it has not come to an end.
pub open spec fn query_run<T, K>(
    rows: Seq<(u64, T)>,
    pk: Seq<char>,
    replies: Seq<Result<reply::Page<T, K>, String>>,
) -> Option<Result<Seq<(u64, T)>, ErrorView>>
    decreases replies.len(),
{
    if replies.len() == 0 {
        None
    } else {
        match reply::paged(rows, pk, replies[0]) {
            reply::PageView::More(more, _) => query_run(more, pk, replies.drop_first()),
            reply::PageView::Done(all) => Some(Ok(all)),
            reply::PageView::Failed(error) => Some(Err(error)),
        }
    }
}

/// Whether a page came in, and each of its rows could be deserialized.
pub open spec fn page_arrived<T, K>(reply: Result<reply::Page<T, K>, String>) -> bool {
    reply matches Ok(page) && decode::first_reason(page.rows@) is None
}

/// The rows of `replies`, in the order in which they came.
pub open spec fn all_rows<T, K>(replies: Seq<Result<reply::Page<T, K>, String>>) -> Seq<(u64, T)>
    decreases replies.len(),
{
    if replies.len() == 0 {
        Seq::empty()
    } else {
        reply::decoded(replies[0]->Ok_0.rows@) + all_rows(replies.drop_first())
    }
}

/// A query returns the rows of all its pages, up to the first without a continuation key, in the
/// order in which they came.
pub proof fn law_a_query_returns_every_page<T, K>(
    rows: Seq<(u64, T)>,
    pk: Seq<char>,
    replies: Seq<Result<reply::Page<T, K>, String>>,
)
    requires
        replies.len() > 0,
        forall|i: int| 0 <= i < replies.len() ==> page_arrived(#[trigger] replies[i]),
        forall|i: int|
            0 <= i < replies.len() ==> ((#[trigger] replies[i])->Ok_0.continuation is None <==> i
                == replies.len() - 1),
    ensures
        query_run(rows, pk, replies) == Some(
            Ok::<Seq<(u64, T)>, ErrorView>(rows + all_rows(replies)),
        ),
    decreases replies.len(),
{
    let page = reply::decoded(replies[0]->Ok_0.rows@);
    let rest = replies.drop_first();
    assert(page_arrived(replies[0]));
    if replies.len() > 1 {
        assert forall|i: int| 0 <= i < rest.len() implies page_arrived(#[trigger] rest[i]) && (
        rest[i]->Ok_0.continuation is None <==> i == rest.len() - 1) by {
            assert(rest[i] == replies[i + 1]);
        }
        law_a_query_returns_every_page(rows + page, pk, rest);
    }
    assert(rows + (page + all_rows(rest)) =~= (rows + page) + all_rows(rest));
}

/// A query fails as a whole when one of its pages does, whatever came before.
pub proof fn law_a_query_fails_with_its_first_failed_page<T, K>(
    rows: Seq<(u64, T)>,
    pk: Seq<char>,
    replies: Seq<Result<reply::Page<T, K>, String>>,
    n: int,
)
    requires
        0 <= n < replies.len(),
        !page_arrived(replies[n]),
        forall|i: int|
            0 <= i < n ==> page_arrived(#[trigger] replies[i])
                && replies[i]->Ok_0.continuation is Some,
    ensures
        query_run(rows, pk, replies) matches Some(Err(_)),
        replies[n] matches Err(reason) ==> query_run(rows, pk, replies) == Some(
            Err::<Seq<(u64, T)>, ErrorView>(reply::failed_under("Query"@, pk, reason@)),
        ),
    decreases n,
{
    if n > 0 {
        let page = reply::decoded(replies[0]->Ok_0.rows@);
        let rest = replies.drop_first();
        assert(page_arrived(replies[0]));
        assert forall|i: int| 0 <= i < n - 1 implies page_arrived(#[trigger] rest[i])
            && rest[i]->Ok_0.continuation is Some by {
            assert(rest[i] == replies[i + 1]);
        }
        assert(rest[n - 1] == replies[n]);
        law_a_query_fails_with_its_first_failed_page(rows + page, pk, rest, n - 1);
    }
}

} // verus!
