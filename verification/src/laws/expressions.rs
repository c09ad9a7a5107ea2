//! What the expressions of the requests mean.

use crate::aws::expression;
use crate::aws::item::{AttributeView, ScalarView};
use crate::aws::reply;
use crate::aws::request;
use crate::aws::request::WriteCondition;
use crate::aws::service;
use crate::schema::{AnyIndex, PrimaryIndex, SortKeyCondition};
use crate::text;
use vstd::prelude::*;

verus! {

/// The names that stand for the attributes and values of an expression, told apart.
proof fn lemma_placeholders_differ()
    ensures
        "#pk"@ != "#version"@,
        "#pk"@ != "#sk"@,
        "#counter"@ != "#version"@,
        ":delta"@ != ":one"@,
        ":pk"@ != ":sk_value"@,
        ":pk"@ != ":sk_low"@,
        ":pk"@ != ":sk_high"@,
        ":sk_low"@ != ":sk_high"@,
{
    reveal_strlit("#pk");
    reveal_strlit("#sk");
    reveal_strlit("#version");
    reveal_strlit("#counter");
    reveal_strlit(":delta");
    reveal_strlit(":one");
    reveal_strlit(":pk");
    reveal_strlit(":sk_value");
    reveal_strlit(":sk_low");
    reveal_strlit(":sk_high");
    assert("#pk"@[1] == 'p' && "#sk"@[1] == 's');
    assert("#counter"@[1] == 'c' && "#version"@[1] == 'v');
    assert("#pk"@.len() == 3);
    assert("#version"@.len() == 8);
    assert(":delta"@.len() == 6);
    assert(":one"@.len() == 4);
    assert(":pk"@.len() == 3);
    assert(":sk_value"@.len() == 9);
    assert(":sk_low"@.len() == 7);
    assert(":sk_high"@.len() == 8);
}

/// The first two placeholders for attributes stand for what they are declared with.
proof fn lemma_named(names: Seq<(Seq<char>, Seq<char>)>)
    ensures
        names.len() >= 1 ==> expression::named(names, names[0].0) == Some(names[0].1),
        names.len() >= 2 && names[0].0 != names[1].0 ==> expression::named(names, names[1].0)
            == Some(names[1].1),
{
    reveal_with_fuel(expression::named, 3);
}

/// The first three placeholders for values stand for what they are declared with.
proof fn lemma_valued(values: Seq<(Seq<char>, ScalarView)>)
    ensures
        values.len() >= 1 ==> expression::valued(values, values[0].0) == Some(values[0].1),
        values.len() >= 2 && values[0].0 != values[1].0 ==> expression::valued(
            values,
            values[1].0,
        ) == Some(values[1].1),
        values.len() >= 3 && values[0].0 != values[2].0 && values[1].0 != values[2].0
            ==> expression::valued(values, values[2].0) == Some(values[2].1),
{
    reveal_with_fuel(expression::valued, 4);
    if values.len() >= 3 {
        assert(values.drop_first()[1] == values[2]);
        assert(values.drop_first().drop_first()[0] == values[2]);
    }
}

proof fn lemma_words_of_the_counter_update()
    ensures
        expression::words("ADD #counter :delta, #version :one"@) == seq![
            "ADD"@,
            "#counter"@,
            ":delta,"@,
            "#version"@,
            ":one"@,
        ],
        expression::without_comma(":delta,"@) == ":delta"@,
        expression::without_comma(":one"@) == ":one"@,
        "#counter"@ != "ADD"@,
        "#counter"@ != "SET"@,
        "#version"@ != "ADD"@,
        "#version"@ != "SET"@,
{
    reveal_strlit("ADD #counter :delta, #version :one");
    reveal_strlit("ADD");
    reveal_strlit("SET");
    reveal_strlit("#counter");
    reveal_strlit(":delta,");
    reveal_strlit(":delta");
    reveal_strlit("#version");
    reveal_strlit(":one");
    let w3 = "#version"@ + seq![' '] + ":one"@;
    let w2 = ":delta,"@ + seq![' '] + w3;
    let w1 = "#counter"@ + seq![' '] + w2;
    let w0 = "ADD"@ + seq![' '] + w1;
    assert("ADD #counter :delta, #version :one"@ =~= w0);
    expression::lemma_first_word("ADD"@, w1);
    expression::lemma_first_word("#counter"@, w2);
    expression::lemma_first_word(":delta,"@, w3);
    expression::lemma_first_word("#version"@, ":one"@);
    expression::lemma_last_word(":one"@);
    assert(expression::words(w0) =~= seq![
        "ADD"@,
        "#counter"@,
        ":delta,"@,
        "#version"@,
        ":one"@,
    ]);
    assert(":delta,"@.drop_last() =~= ":delta"@);
    assert(":delta,"@.last() == ',');
    assert(":one"@.last() == 'e');
    assert("#counter"@[0] == '#' && "#version"@[0] == '#' && "ADD"@[0] == 'A' && "SET"@[0] == 'S');
}

/// An update of a counter adds the amount to the counter and one to the version, and leaves every
/// other attribute as it is, for every amount.
pub proof fn law_a_counter_update_adds<V>(
    attribute: Seq<char>,
    delta: i64,
    item: Map<Seq<char>, AttributeView<V>>,
)
    requires
        attribute != "data_version"@,
    ensures
        expression::item_after(request::counter_update(attribute, delta), item) == Some(
            item.insert(
                attribute,
                AttributeView::<V>::Scalar(
                    ScalarView::N(
                        text::signed_decimal(
                            service::integer_in(item, attribute)->Some_0 + delta,
                        ),
                    ),
                ),
            ).insert(
                "data_version"@,
                AttributeView::<V>::Scalar(
                    ScalarView::N(
                        text::signed_decimal(
                            service::integer_in(item, "data_version"@)->Some_0 + 1,
                        ),
                    ),
                ),
            ),
        ),
{
    let e = request::counter_update(attribute, delta);
    let all = seq!["ADD"@, "#counter"@, ":delta,"@, "#version"@, ":one"@];
    lemma_words_of_the_counter_update();
    lemma_placeholders_differ();
    lemma_named(e.names);
    lemma_valued(e.values);
    assert(text::decimal(1) == text::signed_decimal(1));
    text::lemma_signed_decimal(delta as int);
    text::lemma_signed_decimal(1);
    let s1 = all.skip(1);
    let s3 = s1.skip(2);
    let s5 = s3.skip(2);
    assert(s1 =~= seq!["#counter"@, ":delta,"@, "#version"@, ":one"@]);
    assert(s3 =~= seq!["#version"@, ":one"@]);
    assert(s5.len() == 0);
    let counted = service::with_sum(
        item,
        attribute,
        ScalarView::N(text::signed_decimal(delta as int)),
    );
    let after = service::with_sum(counted, "data_version"@, ScalarView::N(text::decimal(1)));
    assert(expression::actions("ADD"@, s5, e, after) == Some(after));
    assert(expression::actions("ADD"@, s3, e, counted) == Some(after));
    assert(expression::actions("ADD"@, s1, e, item) == Some(after));
    assert(expression::actions(Seq::empty(), all, e, item) == Some(after));
}

/// An update of a counter, read word by word, adds each of its values to the attribute that it
/// comes with, one after the other.
pub proof fn law_a_counter_update_pairs_its_values<V>(
    attribute: Seq<char>,
    delta: i64,
    item: Map<Seq<char>, AttributeView<V>>,
)
    requires
        attribute != "data_version"@,
    ensures
        ({
            let update = request::counter_update(attribute, delta);
            expression::item_after(update, item) == Some(
                service::item_after_adds(item, update.names, update.values),
            )
        }),
{
    law_a_counter_update_adds(attribute, delta, item);
    reveal_with_fuel(service::item_after_adds, 3);
    text::lemma_signed_decimal(delta as int);
    text::lemma_signed_decimal(1);
    assert(text::decimal(1) == text::signed_decimal(1));
}

// ---------------------------------------------------------------------------------------------
// Guards
// ---------------------------------------------------------------------------------------------

/// A word that begins with a `#` is no function's.
proof fn lemma_no_function(word: Seq<char>)
    requires
        word.len() > 0,
        word[0] == '#',
    ensures
        expression::inside(word, "attribute_exists("@, ')') is None,
        expression::inside(word, "attribute_not_exists("@, ')') is None,
        expression::inside(word, "begins_with("@, ',') is None,
{
    reveal_strlit("attribute_exists(");
    reveal_strlit("attribute_not_exists(");
    reveal_strlit("begins_with(");
    expression::lemma_not_inside(word, "attribute_exists("@, ')', 0);
    expression::lemma_not_inside(word, "attribute_not_exists("@, ')', 0);
    expression::lemma_not_inside(word, "begins_with("@, ',', 0);
}

proof fn lemma_words_of_absence()
    ensures
        expression::words("attribute_not_exists(#pk)"@) == seq!["attribute_not_exists(#pk)"@],
        expression::inside("attribute_not_exists(#pk)"@, "attribute_exists("@, ')') is None,
        expression::inside("attribute_not_exists(#pk)"@, "attribute_not_exists("@, ')') == Some(
            "#pk"@,
        ),
{
    reveal_strlit("attribute_not_exists(#pk)");
    reveal_strlit("attribute_exists(");
    reveal_strlit("attribute_not_exists(");
    reveal_strlit("#pk");
    expression::lemma_last_word("attribute_not_exists(#pk)"@);
    expression::lemma_not_inside("attribute_not_exists(#pk)"@, "attribute_exists("@, ')', 10);
    assert("attribute_not_exists(#pk)"@ =~= "attribute_not_exists("@ + "#pk"@ + seq![')']);
    expression::lemma_inside("attribute_not_exists("@, "#pk"@, ')');
}

proof fn lemma_words_of_an_absent_version()
    ensures
        expression::words("attribute_exists(#pk) AND attribute_not_exists(#version)"@) == seq![
            "attribute_exists(#pk)"@,
            "AND"@,
            "attribute_not_exists(#version)"@,
        ],
        expression::inside("attribute_exists(#pk)"@, "attribute_exists("@, ')') == Some("#pk"@),
        expression::inside("attribute_not_exists(#version)"@, "attribute_exists("@, ')') is None,
        expression::inside("attribute_not_exists(#version)"@, "attribute_not_exists("@, ')')
            == Some("#version"@),
{
    reveal_strlit("attribute_exists(#pk) AND attribute_not_exists(#version)");
    reveal_strlit("attribute_exists(#pk)");
    reveal_strlit("attribute_not_exists(#version)");
    reveal_strlit("AND");
    reveal_strlit("attribute_exists(");
    reveal_strlit("attribute_not_exists(");
    reveal_strlit("#pk");
    reveal_strlit("#version");
    let first = "attribute_exists(#pk)"@;
    let last = "attribute_not_exists(#version)"@;
    let rest = "AND"@ + seq![' '] + last;
    assert("attribute_exists(#pk) AND attribute_not_exists(#version)"@ =~= first + seq![' '] + rest);
    expression::lemma_first_word(first, rest);
    expression::lemma_first_word("AND"@, last);
    expression::lemma_last_word(last);
    assert(expression::words(first + seq![' '] + rest) =~= seq![first, "AND"@, last]);
    assert(first =~= "attribute_exists("@ + "#pk"@ + seq![')']);
    assert(last =~= "attribute_not_exists("@ + "#version"@ + seq![')']);
    expression::lemma_inside("attribute_exists("@, "#pk"@, ')');
    expression::lemma_inside("attribute_not_exists("@, "#version"@, ')');
    expression::lemma_not_inside(last, "attribute_exists("@, ')', 10);
}

proof fn lemma_words_of_a_version()
    ensures
        expression::words("#version = :expected"@) == seq!["#version"@, "="@, ":expected"@],
        "#version"@.len() > 0,
        "#version"@[0] == '#',
{
    reveal_strlit("#version = :expected");
    reveal_strlit("#version");
    reveal_strlit("=");
    reveal_strlit(":expected");
    let rest = "="@ + seq![' '] + ":expected"@;
    assert("#version = :expected"@ =~= "#version"@ + seq![' '] + rest);
    expression::lemma_first_word("#version"@, rest);
    expression::lemma_first_word("="@, ":expected"@);
    expression::lemma_last_word(":expected"@);
    assert(expression::words("#version"@ + seq![' '] + rest) =~= seq![
        "#version"@,
        "="@,
        ":expected"@,
    ]);
}

/// A guard against an existing item, read as the service reads it, holds exactly when nothing is
/// stored under the key.
pub proof fn law_the_guard_of_a_create_means_absence<V>(
    schema: PrimaryIndex,
    item: Option<Map<Seq<char>, AttributeView<V>>>,
)
    requires
        item matches Some(stored) ==> stored.contains_key(schema.keys.pk_identifier@),
    ensures
        expression::condition_holds(
            request::guard_expression(schema, WriteCondition::MustNotExist),
            item,
        ) == Some(item is None),
{
    let e = request::guard_expression(schema, WriteCondition::MustNotExist);
    lemma_words_of_absence();
    lemma_named(e.names);
    let all = expression::words(e.text);
    assert(all.skip(1).len() == 0);
    assert(expression::term(all, e, item) == Some((item is None, all.skip(1))));
}

/// A guard on a version, read as the service reads it, holds exactly when an item is stored under
/// the key and its version is the expected one: none that is older, and none that is newer. An
/// expected version of zero asks for an item that carries none.
pub proof fn law_the_guard_of_a_put_means_the_version<V>(
    schema: PrimaryIndex,
    expected: u64,
    item: Option<Map<Seq<char>, AttributeView<V>>>,
)
    requires
        item matches Some(stored) ==> stored.contains_key(schema.keys.pk_identifier@),
    ensures
        expected == 0 ==> expression::condition_holds(
            request::guard_expression(schema, WriteCondition::VersionIs(expected)),
            item,
        ) == Some(item matches Some(stored) && !stored.contains_key("data_version"@)),
        expected > 0 ==> expression::condition_holds(
            request::guard_expression(schema, WriteCondition::VersionIs(expected)),
            item,
        ) == Some(
            item matches Some(stored) && stored.contains_key("data_version"@)
                && stored["data_version"@] == AttributeView::<V>::Scalar(
                ScalarView::N(text::decimal(expected as nat)),
            ),
        ),
{
    let e = request::guard_expression(schema, WriteCondition::VersionIs(expected));
    let all = expression::words(e.text);
    lemma_named(e.names);
    lemma_valued(e.values);
    lemma_placeholders_differ();
    if expected == 0 {
        lemma_words_of_an_absent_version();
        let rest = all.skip(1);
        let last = rest.drop_first();
        let absent = expression::attribute(item, "data_version"@) is None;
        assert(rest[0] == "AND"@);
        assert(last =~= seq!["attribute_not_exists(#version)"@]);
        assert(last.skip(1).len() == 0);
        assert(expression::term(all, e, item) == Some((item is Some, rest)));
        assert(expression::term(last, e, item) == Some((absent, last.skip(1))));
        assert(expression::all_terms(last, e, item) == Some(absent));
    } else {
        lemma_words_of_a_version();
        lemma_no_function("#version"@);
        assert(all.skip(3).len() == 0);
        assert(expression::term(all, e, item) == Some(
            (
                expression::attribute(item, "data_version"@) == Some(
                    AttributeView::<V>::Scalar(ScalarView::N(text::decimal(expected as nat))),
                ),
                all.skip(3),
            ),
        ));
    }
}

/// What a guard says, read as the service reads it, is what the laws on guarded writes take it to
/// say.
pub proof fn law_guards_mean_what_they_are_taken_for<V>(
    schema: PrimaryIndex,
    condition: WriteCondition,
    item: Option<Map<Seq<char>, AttributeView<V>>>,
)
    requires
        item matches Some(stored) ==> stored.contains_key(schema.keys.pk_identifier@),
    ensures
        expression::condition_holds(request::guard_expression(schema, condition), item) == Some(
            service::guard_holds(condition, item),
        ),
{
    match condition {
        WriteCondition::MustNotExist => {
            law_the_guard_of_a_create_means_absence(schema, item);
        },
        WriteCondition::VersionIs(expected) => {
            law_the_guard_of_a_put_means_the_version(schema, expected, item);
        },
    }
}

// ---------------------------------------------------------------------------------------------
// Reading just the version
// ---------------------------------------------------------------------------------------------

proof fn lemma_words_of_the_projection()
    ensures
        expression::words("#pk, #version"@) == seq!["#pk,"@, "#version"@],
        expression::without_comma("#pk,"@) == "#pk"@,
        expression::without_comma("#version"@) == "#version"@,
{
    reveal_strlit("#pk, #version");
    reveal_strlit("#pk,");
    reveal_strlit("#pk");
    reveal_strlit("#version");
    assert("#pk, #version"@ =~= "#pk,"@ + seq![' '] + "#version"@);
    expression::lemma_first_word("#pk,"@, "#version"@);
    expression::lemma_last_word("#version"@);
    assert(expression::words("#pk,"@ + seq![' '] + "#version"@) =~= seq!["#pk,"@, "#version"@]);
    assert("#pk,"@.drop_last() =~= "#pk"@);
    assert("#version"@.last() == 'n');
}

/// A read of the version asks for the partition key and the version and nothing else, so what
/// comes back of a stored item is not empty, and carries the version exactly when the item does.
pub proof fn law_version_reads_ask_for_the_key_and_the_version<V>(
    schema: PrimaryIndex,
    item: Map<Seq<char>, AttributeView<V>>,
    name: Seq<char>,
)
    ensures
        ({
            let read = expression::projected(request::version_projection(schema), item);
            &&& read.contains_key(name) <==> item.contains_key(name) && (name
                == schema.keys.pk_identifier@ || name == "data_version"@)
            &&& read.contains_key(name) ==> read[name] == item[name]
        }),
{
    let e = request::version_projection(schema);
    lemma_words_of_the_projection();
    lemma_placeholders_differ();
    lemma_named(e.names);
    let all = expression::words(e.text);
    assert(all[0] == "#pk,"@ && all[1] == "#version"@);
    assert(expression::named(e.names, expression::without_comma(all[0])) == Some(
        schema.keys.pk_identifier@,
    ));
    assert(expression::named(e.names, expression::without_comma(all[1])) == Some(
        "data_version"@,
    ));
    assert(expression::lists(e, name) <==> name == schema.keys.pk_identifier@ || name
        == "data_version"@);
}

/// Reading just the version of an item comes to the version of the whole item.
pub proof fn law_version_reads_read_the_version<V>(
    schema: PrimaryIndex,
    item: Map<Seq<char>, AttributeView<V>>,
)
    ensures
        reply::stored_version(
            expression::projected(request::version_projection(schema), item),
        ) == reply::stored_version(item),
{
    law_version_reads_ask_for_the_key_and_the_version(schema, item, "data_version"@);
}

// ---------------------------------------------------------------------------------------------
// Queries
// ---------------------------------------------------------------------------------------------

proof fn lemma_words_of_a_partition(rest: Seq<char>)
    ensures
        expression::words("#pk = :pk"@) == seq!["#pk"@, "="@, ":pk"@],
        expression::words("#pk = :pk"@ + seq![' '] + rest) == seq!["#pk"@, "="@, ":pk"@]
            + expression::words(rest),
        "#pk"@.len() > 0,
        "#pk"@[0] == '#',
{
    reveal_strlit("#pk = :pk");
    reveal_strlit("#pk");
    reveal_strlit("=");
    reveal_strlit(":pk");
    let w1 = "="@ + seq![' '] + ":pk"@;
    assert("#pk = :pk"@ =~= "#pk"@ + seq![' '] + w1);
    expression::lemma_first_word("#pk"@, w1);
    expression::lemma_first_word("="@, ":pk"@);
    expression::lemma_last_word(":pk"@);
    assert(expression::words("#pk"@ + seq![' '] + w1) =~= seq!["#pk"@, "="@, ":pk"@]);
    let r2 = ":pk"@ + seq![' '] + rest;
    let r1 = "="@ + seq![' '] + r2;
    assert("#pk = :pk"@ + seq![' '] + rest =~= "#pk"@ + seq![' '] + r1);
    expression::lemma_first_word("#pk"@, r1);
    expression::lemma_first_word("="@, r2);
    expression::lemma_first_word(":pk"@, rest);
    assert(expression::words("#pk"@ + seq![' '] + r1) =~= seq!["#pk"@, "="@, ":pk"@]
        + expression::words(rest));
}

proof fn lemma_words_of_a_prefix()
    ensures
        " AND begins_with(#sk, :sk_value)"@ == seq![' ']
            + "AND begins_with(#sk, :sk_value)"@,
        expression::words("AND begins_with(#sk, :sk_value)"@) == seq![
            "AND"@,
            "begins_with(#sk,"@,
            ":sk_value)"@,
        ],
        expression::inside("begins_with(#sk,"@, "attribute_exists("@, ')') is None,
        expression::inside("begins_with(#sk,"@, "attribute_not_exists("@, ')') is None,
        expression::inside("begins_with(#sk,"@, "begins_with("@, ',') == Some("#sk"@),
        expression::inside(":sk_value)"@, ""@, ')') == Some(":sk_value"@),
{
    reveal_strlit(" AND begins_with(#sk, :sk_value)");
    reveal_strlit("AND begins_with(#sk, :sk_value)");
    reveal_strlit("AND");
    reveal_strlit("begins_with(#sk,");
    reveal_strlit(":sk_value)");
    reveal_strlit(":sk_value");
    reveal_strlit("attribute_exists(");
    reveal_strlit("attribute_not_exists(");
    reveal_strlit("begins_with(");
    reveal_strlit("#sk");
    reveal_strlit("");
    assert(" AND begins_with(#sk, :sk_value)"@ =~= seq![' ']
        + "AND begins_with(#sk, :sk_value)"@);
    let rest = "begins_with(#sk,"@ + seq![' '] + ":sk_value)"@;
    assert("AND begins_with(#sk, :sk_value)"@ =~= "AND"@ + seq![' '] + rest);
    expression::lemma_first_word("AND"@, rest);
    expression::lemma_first_word("begins_with(#sk,"@, ":sk_value)"@);
    expression::lemma_last_word(":sk_value)"@);
    assert(expression::words("AND"@ + seq![' '] + rest) =~= seq![
        "AND"@,
        "begins_with(#sk,"@,
        ":sk_value)"@,
    ]);
    expression::lemma_not_inside("begins_with(#sk,"@, "attribute_exists("@, ')', 0);
    expression::lemma_not_inside("begins_with(#sk,"@, "attribute_not_exists("@, ')', 0);
    assert("begins_with(#sk,"@ =~= "begins_with("@ + "#sk"@ + seq![',']);
    expression::lemma_inside("begins_with("@, "#sk"@, ',');
    assert(":sk_value)"@ =~= ""@ + ":sk_value"@ + seq![')']);
    expression::lemma_inside(""@, ":sk_value"@, ')');
}

proof fn lemma_words_of_between()
    ensures
        " AND #sk BETWEEN :sk_low AND :sk_high"@ == seq![' ']
            + "AND #sk BETWEEN :sk_low AND :sk_high"@,
        expression::words("AND #sk BETWEEN :sk_low AND :sk_high"@) == seq![
            "AND"@,
            "#sk"@,
            "BETWEEN"@,
            ":sk_low"@,
            "AND"@,
            ":sk_high"@,
        ],
        "#sk"@.len() > 0,
        "#sk"@[0] == '#',
        "BETWEEN"@ != "="@,
{
    reveal_strlit(" AND #sk BETWEEN :sk_low AND :sk_high");
    reveal_strlit("AND #sk BETWEEN :sk_low AND :sk_high");
    reveal_strlit("AND");
    reveal_strlit("#sk");
    reveal_strlit("BETWEEN");
    reveal_strlit(":sk_low");
    reveal_strlit(":sk_high");
    reveal_strlit("=");
    assert(" AND #sk BETWEEN :sk_low AND :sk_high"@ =~= seq![' ']
        + "AND #sk BETWEEN :sk_low AND :sk_high"@);
    let w4 = "AND"@ + seq![' '] + ":sk_high"@;
    let w3 = ":sk_low"@ + seq![' '] + w4;
    let w2 = "BETWEEN"@ + seq![' '] + w3;
    let w1 = "#sk"@ + seq![' '] + w2;
    assert("AND #sk BETWEEN :sk_low AND :sk_high"@ =~= "AND"@ + seq![' '] + w1);
    expression::lemma_first_word("AND"@, w1);
    expression::lemma_first_word("#sk"@, w2);
    expression::lemma_first_word("BETWEEN"@, w3);
    expression::lemma_first_word(":sk_low"@, w4);
    expression::lemma_first_word("AND"@, ":sk_high"@);
    expression::lemma_last_word(":sk_high"@);
    assert(expression::words("AND"@ + seq![' '] + w1) =~= seq![
        "AND"@,
        "#sk"@,
        "BETWEEN"@,
        ":sk_low"@,
        "AND"@,
        ":sk_high"@,
    ]);
    assert("BETWEEN"@.len() == 7 && "="@.len() == 1);
}

/// The name of the partition key of an index: an LSI has that of the base table.
pub open spec fn partition_key_of(index: AnyIndex, table: PrimaryIndex) -> Seq<char> {
    match index {
        AnyIndex::Primary(primary) => primary.keys.pk_identifier@,
        AnyIndex::Gsi(gsi) => gsi.keys.pk_identifier@,
        AnyIndex::Lsi(_) => table.keys.pk_identifier@,
    }
}

/// The name of the sort key of an index, if it has one.
pub open spec fn sort_key_of(index: AnyIndex) -> Option<String> {
    match index {
        AnyIndex::Primary(primary) => primary.keys.sk_identifier,
        AnyIndex::Gsi(gsi) => gsi.keys.sk_identifier,
        AnyIndex::Lsi(lsi) => Some(lsi.sk_identifier),
    }
}

/// A query, read as the service reads it, asks for the items whose partition key in the index is
/// the one given, and whose sort key in the index begins with the prefix or lies between the ends
/// that the condition gives, the ends taken in.
pub proof fn law_a_query_asks_for_what_its_condition_says<V>(
    schema: PrimaryIndex,
    index: AnyIndex,
    pk: Seq<char>,
    condition: Option<SortKeyCondition>,
    item: Map<Seq<char>, AttributeView<V>>,
)
    requires
        condition is Some ==> sort_key_of(index) is Some && (condition->Some_0 is Prefix
            || condition->Some_0 is Between),
    ensures
        expression::condition_holds(
            request::query_expression(schema, index, pk, condition),
            Some(item),
        ) == Some(
            expression::string(Some(item), partition_key_of(index, schema)) == Some(pk) && (
            match condition {
                None => true,
                Some(SortKeyCondition::Prefix(prefix)) => expression::string(
                    Some(item),
                    sort_key_of(index)->Some_0@,
                ) matches Some(sk) && prefix@.is_prefix_of(sk),
                Some(SortKeyCondition::Between(low, high)) => expression::string(
                    Some(item),
                    sort_key_of(index)->Some_0@,
                ) matches Some(sk) && text::text_le(low@, sk) && text::text_le(sk, high@),
                _ => false,
            }),
        ),
{
    let e = request::query_expression(schema, index, pk, condition);
    let all = expression::words(e.text);
    let stored = Some(item);
    let found = expression::string(stored, partition_key_of(index, schema)) == Some(pk);
    lemma_placeholders_differ();
    lemma_named(e.names);
    lemma_valued(e.values);
    lemma_words_of_a_partition(Seq::empty());
    lemma_no_function("#pk"@);
    match condition {
        None => {
            assert(all =~= seq!["#pk"@, "="@, ":pk"@]);
            assert(all.skip(3).len() == 0);
            assert(expression::term(all, e, stored) == Some((found, all.skip(3))));
        },
        Some(SortKeyCondition::Prefix(prefix)) => {
            let name = sort_key_of(index)->Some_0@;
            lemma_words_of_a_prefix();
            lemma_words_of_a_partition("AND begins_with(#sk, :sk_value)"@);
            assert(e.text =~= "#pk = :pk"@ + seq![' '] + "AND begins_with(#sk, :sk_value)"@);
            let rest = all.skip(3);
            let last = rest.drop_first();
            let met = expression::string(stored, name) matches Some(sk) && prefix@.is_prefix_of(sk);
            assert(rest =~= seq!["AND"@, "begins_with(#sk,"@, ":sk_value)"@]);
            assert(last =~= seq!["begins_with(#sk,"@, ":sk_value)"@]);
            assert(last.skip(2).len() == 0);
            assert(expression::term(all, e, stored) == Some((found, rest)));
            assert(expression::term(last, e, stored) == Some((met, last.skip(2))));
            assert(expression::all_terms(last, e, stored) == Some(met));
        },
        Some(SortKeyCondition::Between(low, high)) => {
            let name = sort_key_of(index)->Some_0@;
            lemma_words_of_between();
            lemma_no_function("#sk"@);
            lemma_words_of_a_partition("AND #sk BETWEEN :sk_low AND :sk_high"@);
            assert(e.text =~= "#pk = :pk"@ + seq![' '] + "AND #sk BETWEEN :sk_low AND :sk_high"@);
            let rest = all.skip(3);
            let last = rest.drop_first();
            let met = expression::string(stored, name) matches Some(sk) && text::text_le(low@, sk)
                && text::text_le(sk, high@);
            assert(rest =~= seq![
                "AND"@,
                "#sk"@,
                "BETWEEN"@,
                ":sk_low"@,
                "AND"@,
                ":sk_high"@,
            ]);
            assert(last =~= seq!["#sk"@, "BETWEEN"@, ":sk_low"@, "AND"@, ":sk_high"@]);
            assert(last.skip(5).len() == 0);
            assert(expression::term(all, e, stored) == Some((found, rest)));
            assert(expression::term(last, e, stored) == Some((met, last.skip(5))));
            assert(expression::all_terms(last, e, stored) == Some(met));
        },
        _ => {},
    }
}

} // verus!
