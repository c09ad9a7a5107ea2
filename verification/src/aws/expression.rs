//! What the text of an expression means to the service.
//!
//! Nothing here is executed, and no contract rests on it: it reads an expression word by word, as
//! the service does, so that the laws can say what a request asks for.

use crate::aws::item::{AttributeView, ScalarView};
use crate::aws::request::ExpressionView;
use crate::aws::service;
use crate::text;
use vstd::prelude::*;

verus! {

// ---------------------------------------------------------------------------------------------
// Words and placeholders
// ---------------------------------------------------------------------------------------------

/// The position of the first space, or the length of a text without one.
pub open spec fn first_space(text: Seq<char>) -> nat
    decreases text.len(),
{
    if text.len() == 0 || text[0] == ' ' {
        0
    } else {
        1 + first_space(text.drop_first())
    }
}

/// The words of a text: what stands between its spaces.
pub open spec fn words(text: Seq<char>) -> Seq<Seq<char>>
    decreases text.len(),
{
    let n = first_space(text) as int;
    if n >= text.len() {
        seq![text]
    } else {
        seq![text.subrange(0, n)] + words(text.subrange(n + 1, text.len() as int))
    }
}

/// What a placeholder for an attribute stands for.
pub open spec fn named(names: Seq<(Seq<char>, Seq<char>)>, placeholder: Seq<char>) -> Option<
    Seq<char>,
>
    decreases names.len(),
{
    if names.len() == 0 {
        None
    } else if names[0].0 == placeholder {
        Some(names[0].1)
    } else {
        named(names.drop_first(), placeholder)
    }
}

/// What a placeholder for a value stands for.
pub open spec fn valued(values: Seq<(Seq<char>, ScalarView)>, placeholder: Seq<char>) -> Option<
    ScalarView,
>
    decreases values.len(),
{
    if values.len() == 0 {
        None
    } else if values[0].0 == placeholder {
        Some(values[0].1)
    } else {
        valued(values.drop_first(), placeholder)
    }
}

/// The word inside of one that begins with `opening` and ends with `closing`.
pub open spec fn inside(word: Seq<char>, opening: Seq<char>, closing: char) -> Option<Seq<char>> {
    if opening.len() < word.len() && word.subrange(0, opening.len() as int) == opening
        && word.last() == closing {
        Some(word.subrange(opening.len() as int, word.len() - 1))
    } else {
        None
    }
}

/// A word without the comma that it may end with.
pub open spec fn without_comma(word: Seq<char>) -> Seq<char> {
    if word.len() > 0 && word.last() == ',' {
        word.drop_last()
    } else {
        word
    }
}

// ---------------------------------------------------------------------------------------------
// Conditions
// ---------------------------------------------------------------------------------------------

/// The value of an attribute of what is stored under a key, if there is one.
pub open spec fn attribute<V>(
    item: Option<Map<Seq<char>, AttributeView<V>>>,
    name: Seq<char>,
) -> Option<AttributeView<V>> {
    match item {
        Some(item) => if item.contains_key(name) {
            Some(item[name])
        } else {
            None
        },
        None => None,
    }
}

/// The string that an attribute of what is stored under a key is, if it is one.
pub open spec fn string<V>(
    item: Option<Map<Seq<char>, AttributeView<V>>>,
    name: Seq<char>,
) -> Option<Seq<char>> {
    match attribute(item, name) {
        Some(AttributeView::Scalar(ScalarView::S(s))) => Some(s),
        _ => None,
    }
}

/// The truth of the term that `words` begins with, and the words behind it. `None` where there is
/// no term, or where a placeholder is not declared.
pub open spec fn term<V>(
    words: Seq<Seq<char>>,
    e: ExpressionView,
    item: Option<Map<Seq<char>, AttributeView<V>>>,
) -> Option<(bool, Seq<Seq<char>>)> {
    if words.len() == 0 {
        None
    } else if inside(words[0], "attribute_exists("@, ')') is Some {
        match named(e.names, inside(words[0], "attribute_exists("@, ')')->Some_0) {
            Some(name) => Some((attribute(item, name) is Some, words.skip(1))),
            None => None,
        }
    } else if inside(words[0], "attribute_not_exists("@, ')') is Some {
        match named(e.names, inside(words[0], "attribute_not_exists("@, ')')->Some_0) {
            Some(name) => Some((attribute(item, name) is None, words.skip(1))),
            None => None,
        }
    } else if words.len() == 1 {
        None
    } else if inside(words[0], "begins_with("@, ',') is Some {
        match (
            named(e.names, inside(words[0], "begins_with("@, ',')->Some_0),
            inside(words[1], ""@, ')'),
        ) {
            (Some(name), Some(placeholder)) => match valued(e.values, placeholder) {
                Some(ScalarView::S(prefix)) => Some(
                    (
                        string(item, name) matches Some(s) && prefix.is_prefix_of(s),
                        words.skip(2),
                    ),
                ),
                _ => None,
            },
            _ => None,
        }
    } else if words.len() >= 3 && words[1] == "="@ {
        match (named(e.names, words[0]), valued(e.values, words[2])) {
            (Some(name), Some(value)) => Some(
                (attribute(item, name) == Some(AttributeView::<V>::Scalar(value)), words.skip(3)),
            ),
            _ => None,
        }
    } else if words.len() >= 5 && words[1] == "BETWEEN"@ && words[3] == "AND"@ {
        match (named(e.names, words[0]), valued(e.values, words[2]), valued(e.values, words[4])) {
            (Some(name), Some(ScalarView::S(low)), Some(ScalarView::S(high))) => Some(
                (
                    string(item, name) matches Some(s) && text::text_le(low, s) && text::text_le(
                        s,
                        high,
                    ),
                    words.skip(5),
                ),
            ),
            _ => None,
        }
    } else {
        None
    }
}

/// The truth of terms that are joined by `AND`. `None` where `words` are no such terms.
pub open spec fn all_terms<V>(
    words: Seq<Seq<char>>,
    e: ExpressionView,
    item: Option<Map<Seq<char>, AttributeView<V>>>,
) -> Option<bool>
    decreases words.len(),
{
    match term(words, e, item) {
        Some((truth, rest)) => if rest.len() == 0 {
            Some(truth)
        } else if rest[0] == "AND"@ && rest.len() <= words.len() {
            match all_terms(rest.drop_first(), e, item) {
                Some(others) => Some(truth && others),
                None => None,
            }
        } else {
            None
        },
        None => None,
    }
}

/// Whether a condition holds of what is stored under a key. `None` for a text that is no
/// condition.
pub open spec fn condition_holds<V>(
    e: ExpressionView,
    item: Option<Map<Seq<char>, AttributeView<V>>>,
) -> Option<bool> {
    all_terms(words(e.text), e, item)
}

// ---------------------------------------------------------------------------------------------
// Updates
// ---------------------------------------------------------------------------------------------

/// The item behind the actions that `words` list, the first of them under the keyword `clause`:
/// `ADD` adds a value to an attribute, `SET` puts one there. `None` where `words` are no actions,
/// or where a placeholder is not declared.
pub open spec fn actions<V>(
    clause: Seq<char>,
    words: Seq<Seq<char>>,
    e: ExpressionView,
    item: Map<Seq<char>, AttributeView<V>>,
) -> Option<Map<Seq<char>, AttributeView<V>>>
    decreases words.len(),
{
    if words.len() == 0 {
        Some(item)
    } else if words[0] == "ADD"@ || words[0] == "SET"@ {
        actions(words[0], words.skip(1), e, item)
    } else if clause == "ADD"@ && words.len() >= 2 {
        match (named(e.names, words[0]), valued(e.values, without_comma(words[1]))) {
            (Some(name), Some(value)) => actions(
                clause,
                words.skip(2),
                e,
                service::with_sum(item, name, value),
            ),
            _ => None,
        }
    } else if clause == "SET"@ && words.len() >= 3 && words[1] == "="@ {
        match (named(e.names, words[0]), valued(e.values, without_comma(words[2]))) {
            (Some(name), Some(value)) => actions(
                clause,
                words.skip(3),
                e,
                item.insert(name, AttributeView::Scalar(value)),
            ),
            _ => None,
        }
    } else {
        None
    }
}

/// The item behind an update, where the attributes that it adds to are integers or absent. `None`
/// for a text that is no update.
pub open spec fn item_after<V>(
    e: ExpressionView,
    item: Map<Seq<char>, AttributeView<V>>,
) -> Option<Map<Seq<char>, AttributeView<V>>> {
    actions(Seq::empty(), words(e.text), e, item)
}

// ---------------------------------------------------------------------------------------------
// Projections
// ---------------------------------------------------------------------------------------------

/// Whether a projection lists an attribute.
pub open spec fn lists(e: ExpressionView, attribute: Seq<char>) -> bool {
    exists|i: int|
        0 <= i < words(e.text).len() && named(
            e.names,
            without_comma(#[trigger] words(e.text)[i]),
        ) == Some(attribute)
}

/// What a projection leaves of an item.
pub open spec fn projected<V>(
    e: ExpressionView,
    item: Map<Seq<char>, AttributeView<V>>,
) -> Map<Seq<char>, AttributeView<V>> {
    Map::new(
        |name: Seq<char>| item.contains_key(name) && lists(e, name),
        |name: Seq<char>| item[name],
    )
}

// ---------------------------------------------------------------------------------------------
// Reading a text
// ---------------------------------------------------------------------------------------------

/// Whether a text is a single word.
pub open spec fn is_word(text: Seq<char>) -> bool {
    forall|i: int| 0 <= i < text.len() ==> #[trigger] text[i] != ' '
}

proof fn lemma_first_space(word: Seq<char>, rest: Seq<char>)
    requires
        is_word(word),
        rest.len() > 0 ==> rest[0] == ' ',
    ensures
        first_space(word + rest) == word.len(),
    decreases word.len(),
{
    let all = word + rest;
    if word.len() > 0 {
        assert(all[0] == word[0]);
        assert(all.drop_first() =~= word.drop_first() + rest);
        assert forall|i: int| 0 <= i < word.drop_first().len() implies #[trigger] word.drop_first()[i]
            != ' ' by {
            assert(word.drop_first()[i] == word[i + 1]);
        }
        lemma_first_space(word.drop_first(), rest);
    } else if rest.len() > 0 {
        assert(all[0] == rest[0]);
    }
}

/// A single word is its own words.
pub proof fn lemma_last_word(word: Seq<char>)
    requires
        is_word(word),
    ensures
        words(word) == seq![word],
{
    lemma_first_space(word, Seq::empty());
    assert(word + Seq::<char>::empty() =~= word);
}

/// The words of a text are its first word, and those behind the space after it.
pub proof fn lemma_first_word(word: Seq<char>, rest: Seq<char>)
    requires
        is_word(word),
    ensures
        words(word + seq![' '] + rest) == seq![word] + words(rest),
{
    let all = word + seq![' '] + rest;
    let tail = seq![' '] + rest;
    assert(all =~= word + tail);
    lemma_first_space(word, tail);
    assert(all.subrange(0, word.len() as int) =~= word);
    assert(all.subrange(word.len() as int + 1, all.len() as int) =~= rest);
}

/// What stands between an opening and a closing is inside.
pub proof fn lemma_inside(opening: Seq<char>, word: Seq<char>, closing: char)
    ensures
        inside(opening + word + seq![closing], opening, closing) == Some(word),
{
    let all = opening + word + seq![closing];
    assert(all.subrange(0, opening.len() as int) =~= opening);
    assert(all.subrange(opening.len() as int, all.len() - 1) =~= word);
    assert(all.last() == closing);
}

/// A word that differs from an opening has nothing inside of it.
pub proof fn lemma_not_inside(word: Seq<char>, opening: Seq<char>, closing: char, at: int)
    requires
        0 <= at < opening.len(),
        at < word.len() ==> word[at] != opening[at],
    ensures
        inside(word, opening, closing) is None,
{
    if opening.len() < word.len() && word.subrange(0, opening.len() as int) == opening {
        assert(word.subrange(0, opening.len() as int)[at] == opening[at]);
    }
}

} // verus!
