//! What the service makes of a request.
//!
//! Nothing here is executed, and no contract rests on it: these are the replies and the stored
//! items that the laws speak of when they say what a request comes to.

use crate::aws::expression;
use crate::aws::guarded::WriteView;
use crate::aws::item::{AttributeView, ScalarView};
use crate::aws::reply;
use crate::aws::reply::PutFailure;
use crate::aws::request;
use crate::aws::request::{ExpressionView, WriteCondition};
use crate::schema::{PrimaryIndex, DATA_VERSION_ATTRIBUTE};
use crate::text;
use vstd::prelude::*;

verus! {

// ---------------------------------------------------------------------------------------------
// Guarded writes
// ---------------------------------------------------------------------------------------------

/// Whether the item stored under a key, if there is one, is stored at `version`: one that is at
/// version zero carries no version.
pub open spec fn is_stored_at<V>(
    item: Option<Map<Seq<char>, AttributeView<V>>>,
    version: Option<u64>,
) -> bool {
    match (item, version) {
        (None, None) => true,
        (Some(item), Some(version)) => if version == 0 {
            !item.contains_key(DATA_VERSION_ATTRIBUTE@)
        } else {
            &&& item.contains_key(DATA_VERSION_ATTRIBUTE@)
            &&& item[DATA_VERSION_ATTRIBUTE@] == AttributeView::<V>::Scalar(
                ScalarView::N(text::decimal(version as nat)),
            )
        },
        _ => false,
    }
}

/// Whether a guard holds of what is stored under a key.
pub open spec fn guard_holds<V>(
    condition: WriteCondition,
    item: Option<Map<Seq<char>, AttributeView<V>>>,
) -> bool {
    match condition {
        WriteCondition::MustNotExist => item is None,
        WriteCondition::VersionIs(version) => is_stored_at(item, Some(version)),
    }
}

/// How the service answers a write that is guarded by `condition`.
pub open spec fn put_answer<V>(
    condition: WriteCondition,
    item: Option<Map<Seq<char>, AttributeView<V>>>,
) -> Result<(), PutFailure> {
    if guard_holds(condition, item) {
        Ok(())
    } else {
        Err(PutFailure::ConditionalCheckFailed)
    }
}

/// What is stored after a write of `contents`: the written item if the guard holds, and what was
/// stored otherwise.
pub open spec fn item_after_put<V>(
    write: WriteView,
    item: Option<Map<Seq<char>, AttributeView<V>>>,
    contents: Map<Seq<char>, AttributeView<V>>,
) -> Option<Map<Seq<char>, AttributeView<V>>> {
    if guard_holds(write.condition, item) {
        Some(
            request::built_item(
                write.schema,
                write.pk,
                write.schema.sk_attribute(write.sk),
                write.new_version,
                contents,
            ),
        )
    } else {
        item
    }
}

/// The version that a read of what is stored under a key comes to, for an item whose version can
/// be read.
pub open spec fn version_read<V>(item: Option<Map<Seq<char>, AttributeView<V>>>) -> Option<u64> {
    match item {
        Some(item) => reply::stored_version(item),
        None => None,
    }
}

// ---------------------------------------------------------------------------------------------
// Counters
// ---------------------------------------------------------------------------------------------

/// The integer in an attribute; zero while the attribute is absent, and nothing when it holds
/// something else.
pub open spec fn integer_in<V>(
    item: Map<Seq<char>, AttributeView<V>>,
    attribute: Seq<char>,
) -> Option<int> {
    if item.contains_key(attribute) {
        match item[attribute] {
            AttributeView::Scalar(ScalarView::N(n)) => text::signed_value(n),
            _ => None,
        }
    } else {
        Some(0)
    }
}

/// The item that an update is made to: what is stored under the key, or an item with the key and
/// nothing else.
pub open spec fn item_to_update<V>(
    schema: PrimaryIndex,
    pk: Seq<char>,
    sk: Option<Seq<char>>,
    item: Option<Map<Seq<char>, AttributeView<V>>>,
) -> Map<Seq<char>, AttributeView<V>> {
    match item {
        Some(item) => item,
        None => request::with_key(schema, pk, schema.sk_attribute(sk), Map::empty()),
    }
}

/// The item with the number `addend` added to the integer in `attribute`.
pub open spec fn with_sum<V>(
    item: Map<Seq<char>, AttributeView<V>>,
    attribute: Seq<char>,
    addend: ScalarView,
) -> Map<Seq<char>, AttributeView<V>> {
    let sum = integer_in(item, attribute)->Some_0 + text::signed_value(addend->N_0)->Some_0;
    item.insert(attribute, AttributeView::Scalar(ScalarView::N(text::signed_decimal(sum))))
}

/// The item behind an update that adds each of its values to the attribute that it comes with,
/// where those are integers or absent.
pub open spec fn item_after_adds<V>(
    item: Map<Seq<char>, AttributeView<V>>,
    names: Seq<(Seq<char>, Seq<char>)>,
    values: Seq<(Seq<char>, ScalarView)>,
) -> Map<Seq<char>, AttributeView<V>>
    decreases names.len(),
{
    if names.len() == 0 || values.len() == 0 {
        item
    } else {
        item_after_adds(
            with_sum(item, names[0].1, values[0].1),
            names.drop_first(),
            values.drop_first(),
        )
    }
}

/// The item behind an update of what is stored under `(pk, sk)`, as the text of the update says.
pub open spec fn item_after_update<V>(
    schema: PrimaryIndex,
    pk: Seq<char>,
    sk: Option<Seq<char>>,
    item: Option<Map<Seq<char>, AttributeView<V>>>,
    update: ExpressionView,
) -> Map<Seq<char>, AttributeView<V>> {
    expression::item_after(update, item_to_update(schema, pk, sk, item))->Some_0
}

/// Whether an update touches an attribute.
pub open spec fn touches(update: ExpressionView, attribute: Seq<char>) -> bool {
    exists|i: int| 0 <= i < update.names.len() && (#[trigger] update.names[i]).1 == attribute
}

/// The attributes of an item that an update touched.
pub open spec fn touched<V>(
    item: Map<Seq<char>, AttributeView<V>>,
    update: ExpressionView,
) -> Map<Seq<char>, AttributeView<V>> {
    Map::new(
        |attribute: Seq<char>| item.contains_key(attribute) && touches(update, attribute),
        |attribute: Seq<char>| item[attribute],
    )
}

} // verus!
