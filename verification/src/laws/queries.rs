//! What a query of the in-memory store finds, and in which order.

use crate::aws::expression;
use crate::aws::item::AttributeView;
use crate::aws::request;
use crate::json;
use crate::laws::expressions;
use crate::mock;
use crate::mock::{MockKeyView, MockView, QueryView};
use crate::schema::{
    AnyIndex, GlobalSecondaryIndex, LocalSecondaryIndex, PrimaryIndex, SortKeyCondition,
};
use crate::text;
use vstd::prelude::*;

verus! {

/// The string that a payload holds under `name`, if it holds one there.
pub open spec fn string_under(payload: serde_json::Value, name: Seq<char>) -> Option<Seq<char>> {
    if json::json_members(payload).contains_key(name) {
        json::json_text(json::json_members(payload)[name])
    } else {
        None
    }
}

/// A query of a GSI finds every item that is stored in the table and holds the partition key as a
/// string under the GSI's name for it, and nothing else, whether or not the GSI has a sort key.
pub proof fn law_a_gsi_query_finds_items_by_their_attribute(
    db: MockView,
    gsi: GlobalSecondaryIndex,
    pk: Seq<char>,
    table: Seq<char>,
    key: MockKeyView,
)
    ensures
        db.found_by(
            QueryView { index: AnyIndex::Gsi(gsi), pk, condition: None, table },
            key,
        ) <==> db.items.contains_key(key) && key.table == table && string_under(
            db.items[key].1,
            gsi.keys.pk_identifier@,
        ) == Some(pk),
{
}

/// A query of an LSI finds every item that is stored in the table under the partition key, whether
/// or not it holds the LSI's sort key, and nothing else.
pub proof fn law_an_lsi_query_finds_the_partition(
    db: MockView,
    lsi: LocalSecondaryIndex,
    pk: Seq<char>,
    table: Seq<char>,
    key: MockKeyView,
)
    ensures
        db.found_by(
            QueryView { index: AnyIndex::Lsi(lsi), pk, condition: None, table },
            key,
        ) <==> db.items.contains_key(key) && key.table == table && key.pk == pk,
{
}

/// The sort key that an item has in an index, if it has one there: its own in the base table, and
/// the string that it holds under the index's name for it in another.
pub open spec fn sort_key_in(
    index: AnyIndex,
    key: MockKeyView,
    payload: serde_json::Value,
) -> Option<Seq<char>> {
    match index {
        AnyIndex::Primary(_) => key.sk,
        AnyIndex::Gsi(gsi) => match gsi.keys.sk_identifier {
            Some(name) => string_under(payload, name@),
            None => None,
        },
        AnyIndex::Lsi(lsi) => string_under(payload, lsi.sk_identifier@),
    }
}

/// A condition narrows a query to the items whose sort key in the index meets it: those that begin
/// with the prefix, or lie between the two ends, the ends taken in.
pub proof fn law_a_condition_narrows_a_query(
    db: MockView,
    index: AnyIndex,
    pk: Seq<char>,
    table: Seq<char>,
    key: MockKeyView,
    prefix: String,
    low: String,
    high: String,
)
    ensures
        ({
            let all = QueryView { index, pk, condition: None, table };
            let prefixed = QueryView {
                index,
                pk,
                condition: Some(SortKeyCondition::Prefix(prefix)),
                table,
            };
            let between = QueryView {
                index,
                pk,
                condition: Some(SortKeyCondition::Between(low, high)),
                table,
            };
            let sk = sort_key_in(index, key, db.items[key].1);
            &&& db.found_by(prefixed, key) <==> db.found_by(all, key) && sk is Some
                && prefix@.is_prefix_of(sk->Some_0)
            &&& db.found_by(between, key) <==> db.found_by(all, key) && sk is Some
                && text::text_le(low@, sk->Some_0) && text::text_le(sk->Some_0, high@)
        }),
{
}

/// Every answer to a query holds the version and the payload of each item that the query finds,
/// once, and of no other, ordered by their sort keys in the index; an item without one comes
/// before the others.
pub proof fn law_an_answer_is_what_is_found_in_order(
    db: MockView,
    query: QueryView,
    rows: Seq<(u64, serde_json::Value)>,
)
    requires
        db.answers(query, rows),
    ensures
        exists|keys: Seq<MockKeyView>|
            {
                &&& #[trigger] keys.len() == rows.len()
                &&& keys.no_duplicates()
                &&& forall|key: MockKeyView| #[trigger]
                    keys.contains(key) <==> db.found_by(query, key)
                &&& forall|i: int|
                    0 <= i < rows.len() ==> #[trigger] rows[i] == db.items[keys[i]]
                &&& forall|i: int, j: int|
                    #![trigger keys[i], keys[j]]
                    0 <= i < j < keys.len() ==> {
                        let a = sort_key_in(query.index, keys[i], db.items[keys[i]].1);
                        let b = sort_key_in(query.index, keys[j], db.items[keys[j]].1);
                        a is Some ==> (b is Some && text::text_le(a->Some_0, b->Some_0)) || (b
                            is None && a->Some_0.len() == 0)
                    }
            },
{
    let keys = choose|keys: Seq<MockKeyView>| #[trigger]
        db.lists(query, keys) && rows == db.rows(keys);
    assert forall|i: int, j: int|
        #![trigger keys[i], keys[j]]
        0 <= i < j < keys.len() implies {
        let a = sort_key_in(query.index, keys[i], db.items[keys[i]].1);
        let b = sort_key_in(query.index, keys[j], db.items[keys[j]].1);
        a is Some ==> (b is Some && text::text_le(a->Some_0, b->Some_0)) || (b is None
            && a->Some_0.len() == 0)
    } by {
        assert(keys.contains(keys[i]) && keys.contains(keys[j]));
        assert(db.found_by(query, keys[i]) && db.found_by(query, keys[j]));
        assert(text::text_le(db.order_of(query, keys[i]), db.order_of(query, keys[j])));
    }
}

/// The rows of an answer are its versions and payloads as they are.
pub proof fn law_rows_are_taken_as_they_are(rows: Seq<(u64, &serde_json::Value)>, i: int)
    requires
        0 <= i < rows.len(),
    ensures
        mock::row_values(rows).len() == rows.len(),
        mock::row_values(rows)[i] == (rows[i].0, *rows[i].1),
{
}

/// What a payload holds under a name is the string there, and nothing where there is none.
pub proof fn law_attributes_are_read_by_their_name(payload: serde_json::Value, name: Seq<char>)
    ensures
        json::text_member(payload, name) == string_under(payload, name),
{
}

/// An index lists an item under its own key in the base table, under the partition key of the
/// table and its own attribute in an LSI, and under its attributes in a GSI, which leaves out the
/// items that lack the first.
pub proof fn law_indexes_list_items_under_their_keys(
    primary: PrimaryIndex,
    gsi: GlobalSecondaryIndex,
    lsi: LocalSecondaryIndex,
    pk: Seq<char>,
    sk: Option<Seq<char>>,
    held_pk: Option<Seq<char>>,
    held_sk: Option<Seq<char>>,
    found_pk: String,
    found_sk: Option<String>,
)
    ensures
        mock::listed_under(AnyIndex::Primary(primary), pk, sk, held_pk, held_sk) == Some((pk, sk)),
        mock::listed_under(AnyIndex::Lsi(lsi), pk, sk, held_pk, held_sk) == Some((pk, held_sk)),
        held_pk is Some ==> mock::listed_under(AnyIndex::Gsi(gsi), pk, sk, held_pk, held_sk)
            == Some((held_pk->Some_0, held_sk)),
        held_pk is None ==> mock::listed_under(AnyIndex::Gsi(gsi), pk, sk, held_pk, held_sk)
            is None,
        found_sk matches Some(s) ==> mock::keys_view(Some((found_pk, found_sk))) == Some(
            (found_pk@, Some(s@)),
        ),
        found_sk is None ==> mock::keys_view(Some((found_pk, found_sk))) == Some(
            (found_pk@, None::<Seq<char>>),
        ),
        mock::keys_view(None) is None,
{
}

/// The store finds an item exactly when the service would be asked for it, where the item on the
/// service holds the key attributes of the index as the store does.
pub proof fn law_backends_find_the_same_items<V>(
    db: MockView,
    query: QueryView,
    key: MockKeyView,
    item: Map<Seq<char>, AttributeView<V>>,
)
    requires
        db.items.contains_key(key),
        key.table == query.table,
        query.condition is Some ==> expressions::sort_key_of(query.index) is Some && (
        query.condition->Some_0 is Prefix || query.condition->Some_0 is Between),
        expression::string(Some(item), expressions::partition_key_of(query.index, db.schema)) == (
        match query.index {
            AnyIndex::Gsi(gsi) => string_under(db.items[key].1, gsi.keys.pk_identifier@),
            _ => Some(key.pk),
        }),
        expressions::sort_key_of(query.index) matches Some(name) ==> expression::string(
            Some(item),
            name@,
        ) == sort_key_in(query.index, key, db.items[key].1),
    ensures
        expression::condition_holds(
            request::query_expression(db.schema, query.index, query.pk, query.condition),
            Some(item),
        ) == Some(db.found_by(query, key)),
{
    expressions::law_a_query_asks_for_what_its_condition_says(
        db.schema,
        query.index,
        query.pk,
        query.condition,
        item,
    );
}

} // verus!
