//! Items as the service stores them: attributes by name.

use crate::assoc::AssocMap;
use vstd::prelude::*;
use vstd::string::*;

verus! {

broadcast use vstd::string::group_string_axioms;

/// A string or a number. Numbers travel as text.
#[derive(Debug, Clone, PartialEq, Eq)]
pub enum Scalar {
    /// A string.
    S(String),
    /// A number, in decimal.
    N(String),
}

/// What a [`Scalar`] says.
#[verifier::ext_equal]
pub enum ScalarView {
    S(Seq<char>),
    N(Seq<char>),
}

impl View for Scalar {
    type V = ScalarView;

    open spec fn view(&self) -> ScalarView {
        match *self {
            Scalar::S(text) => ScalarView::S(text@),
            Scalar::N(text) => ScalarView::N(text@),
        }
    }
}

/// The value of an attribute. What is neither a string nor a number is carried along unread.
#[derive(Debug, Clone, PartialEq, Eq)]
pub enum AttributeValue<V> {
    Scalar(Scalar),
    Other(V),
}

/// What an [`AttributeValue`] says.
#[verifier::ext_equal]
pub enum AttributeView<V> {
    Scalar(ScalarView),
    Other(V),
}

impl<V> View for AttributeValue<V> {
    type V = AttributeView<V>;

    open spec fn view(&self) -> AttributeView<V> {
        match *self {
            AttributeValue::Scalar(scalar) => AttributeView::Scalar(scalar@),
            AttributeValue::Other(value) => AttributeView::Other(value),
        }
    }
}

/// An item: attributes by name.
#[derive(Debug)]
pub struct Item<V> {
    attributes: AssocMap<String, AttributeValue<V>>,
}

impl<V> View for Item<V> {
    type V = Map<Seq<char>, AttributeView<V>>;

    closed spec fn view(&self) -> Map<Seq<char>, AttributeView<V>> {
        self.attributes@.map_values(|value: AttributeValue<V>| value@)
    }
}

impl<V> Item<V> {
    /// An item without attributes.
    pub fn new() -> (item: Self)
        ensures
            item@ == Map::<Seq<char>, AttributeView<V>>::empty(),
    {
        let item = Item { attributes: AssocMap::new() };
        assert(item@ =~= Map::<Seq<char>, AttributeView<V>>::empty());
        item
    }

    /// Gives the item the attribute `name`, in place of the one it had under that name.
    pub fn insert(&mut self, name: String, value: AttributeValue<V>)
        ensures
            final(self)@ == old(self)@.insert(name@, value@),
    {
        let ghost before = self@;
        self.attributes.insert(name, value);
        assert(self@ =~= before.insert(name@, value@));
    }

    /// The value of the attribute `name`.
    pub fn get(&self, name: &str) -> (value: Option<&AttributeValue<V>>)
        ensures
            match value {
                Some(v) => self@.contains_key(name@) && v@ == self@[name@],
                None => !self@.contains_key(name@),
            },
    {
        let key = name.to_string();
        self.attributes.get(&key)
    }

    /// The attributes: each name once, with its value.
    pub fn into_attributes(self) -> (attributes: Vec<(String, AttributeValue<V>)>)
        ensures
            forall|i: int|
                0 <= i < attributes@.len() ==> {
                    &&& self@.contains_key((#[trigger] attributes@[i]).0@)
                    &&& self@[attributes@[i].0@] == attributes@[i].1@
                },
            forall|i: int, j: int|
                0 <= i < attributes@.len() && 0 <= j < attributes@.len() && i != j
                    ==> (#[trigger] attributes@[i]).0@ != (#[trigger] attributes@[j]).0@,
            forall|name: Seq<char>| #[trigger]
                self@.contains_key(name) ==> exists|i: int|
                    0 <= i < attributes@.len() && (#[trigger] attributes@[i]).0@ == name,
    {
        proof {
            assert forall|name: Seq<char>| #[trigger]
                self@.contains_key(name) implies self.attributes@.contains_key(name) by {}
        }
        self.attributes.into_entries()
    }
}

} // verus!
