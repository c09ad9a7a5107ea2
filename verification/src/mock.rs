//! An in-memory store with the semantics of the service, for local running and unit testing.

use crate::assoc::{AssocMap, MapKey};
use crate::container::Container;
use crate::error::{Error, ErrorView};
use crate::json;
use crate::json::{as_integer, empty_object, integer, is_object, member, member_text, set_member};
use crate::schema::{
    check_query, AnyIndex, PrimaryIndex, SortKeyCondition, INITIAL_DATA_VERSION,
};
use crate::text;
use crate::text::{borrow_text, clone_text, i64_text, is_at_most, quote, same_text};
use vstd::prelude::*;
use vstd::string::*;

verus! {

broadcast use vstd::string::group_string_axioms;

/// The key of an item: the table it is in, and its primary key there.
#[derive(Debug, Clone, Hash, PartialEq, Eq)]
pub struct MockDbKey {
    table_name: String,
    pk: String,
    sk: Option<String>,
}

/// What a [`MockDbKey`] says.
#[verifier::ext_equal]
pub struct MockKeyView {
    pub table: Seq<char>,
    pub pk: Seq<char>,
    pub sk: Option<Seq<char>>,
}

impl View for MockDbKey {
    type V = MockKeyView;

    closed spec fn view(&self) -> MockKeyView {
        MockKeyView { table: self.table_name@, pk: self.pk@, sk: text::chars_of(self.sk) }
    }
}

impl MapKey for MockDbKey {
    fn same_key(&self, other: &Self) -> (same: bool) {
        self.table_name == other.table_name && self.pk == other.pk && same_text(&self.sk, &other.sk)
    }
}

impl MockDbKey {
    fn new(table: &str, pk: &String, sk: &Option<String>) -> (key: Self)
        ensures
            key@ == key_of(table@, pk@, text::chars_of(*sk)),
    {
        MockDbKey { table_name: table.to_string(), pk: pk.clone(), sk: clone_text(sk) }
    }
}

/// The key `(pk, sk)` in `table`.
pub open spec fn key_of(table: Seq<char>, pk: Seq<char>, sk: Option<Seq<char>>) -> MockKeyView {
    MockKeyView { table, pk, sk }
}

/// In-memory store for local running and unit testing.
///
/// Payloads are stored as JSON values keyed by `(table, pk, sk)` alongside their `data_version`.
///
/// All tables in one store share the [`PrimaryIndex`] given to [`MockDynamoDb::new`], which is
/// what every operation validates its `sk` argument against: the same check that the requests of
/// [`crate::aws`] go through, so a key that is rejected by one backend is rejected by the other,
/// and every key that is stored matches the schema.
#[derive(Debug)]
pub struct MockDynamoDb {
    primary_index: PrimaryIndex,
    items: AssocMap<MockDbKey, Container<serde_json::Value>>,
}

/// What a [`MockDynamoDb`] holds: the version and the payload of each stored item.
#[verifier::ext_equal]
pub struct MockView {
    pub schema: PrimaryIndex,
    pub items: Map<MockKeyView, (u64, serde_json::Value)>,
}

impl View for MockDynamoDb {
    type V = MockView;

    closed spec fn view(&self) -> MockView {
        MockView {
            schema: self.primary_index,
            items: self.items@.map_values(|item: Container<serde_json::Value>| item@),
        }
    }
}

/// What serializing a payload came to, with a failure's reason by its characters.
pub open spec fn payload_of(payload: Result<serde_json::Value, String>) -> Result<
    serde_json::Value,
    Seq<char>,
> {
    match payload {
        Ok(value) => Ok(value),
        Err(reason) => Err(reason@),
    }
}

/// The failure to serialize a payload for `reason`.
pub open spec fn unserializable(reason: Seq<char>) -> ErrorView {
    ErrorView::Serialization("Failed to serialize mock payload: "@ + reason)
}

// ---------------------------------------------------------------------------------------------
// What the operations do
// ---------------------------------------------------------------------------------------------

/// Why a write of `payload` under `sk` is refused whatever is stored.
pub open spec fn write_rejection(
    schema: PrimaryIndex,
    sk: Option<Seq<char>>,
    payload: Result<serde_json::Value, Seq<char>>,
) -> Option<ErrorView> {
    if !schema.accepts(sk) {
        Some(schema.sk_error())
    } else {
        match payload {
            Ok(_) => None,
            Err(reason) => Some(unserializable(reason)),
        }
    }
}

/// Why a write of `payload` under `sk` that expects `expected_version` is refused whatever is
/// stored.
pub open spec fn put_rejection(
    schema: PrimaryIndex,
    sk: Option<Seq<char>>,
    expected_version: u64,
    payload: Result<serde_json::Value, Seq<char>>,
) -> Option<ErrorView> {
    if expected_version == 0 {
        Some(crate::error::zero_version_error())
    } else {
        write_rejection(schema, sk, payload)
    }
}

impl MockView {
    /// Whether every stored key has a sort key exactly when the schema has one.
    pub open spec fn keys_match_schema(self) -> bool {
        forall|key: MockKeyView| #[trigger]
            self.items.contains_key(key) ==> self.schema.accepts(key.sk)
    }

    /// The version at which an item is stored under `key`, if one is.
    pub open spec fn version_of(self, key: MockKeyView) -> Option<u64> {
        if self.items.contains_key(key) {
            Some(self.items[key].0)
        } else {
            None
        }
    }

    /// The version that an advancing write leaves behind: one past what is stored, or the
    /// initial version for an absent key.
    pub open spec fn next_version(self, key: MockKeyView) -> u64 {
        match self.version_of(key) {
            Some(version) => (version + 1) as u64,
            None => INITIAL_DATA_VERSION,
        }
    }

    /// The store with `value` under `key` at `version`, and everything else as it is.
    pub open spec fn with(self, key: MockKeyView, version: u64, value: serde_json::Value) -> Self {
        MockView { schema: self.schema, items: self.items.insert(key, (version, value)) }
    }

    /// The store with nothing under `key`, and everything else as it is.
    pub open spec fn without(self, key: MockKeyView) -> Self {
        MockView { schema: self.schema, items: self.items.remove(key) }
    }

    /// Reading `key`.
    pub open spec fn read(self, key: MockKeyView) -> Result<
        Option<(u64, serde_json::Value)>,
        ErrorView,
    > {
        if !self.schema.accepts(key.sk) {
            Err(self.schema.sk_error())
        } else if self.items.contains_key(key) {
            Ok(Some(self.items[key]))
        } else {
            Ok(None)
        }
    }

    /// Seeding `key` with `payload` at any version.
    pub open spec fn seeded(
        self,
        key: MockKeyView,
        version: u64,
        payload: Result<serde_json::Value, Seq<char>>,
    ) -> (Self, Result<(), ErrorView>) {
        match write_rejection(self.schema, key.sk, payload) {
            Some(error) => (self, Err(error)),
            None => (self.with(key, version, payload->Ok_0), Ok(())),
        }
    }

    /// Creating `key` with `payload`: only if nothing is stored there.
    pub open spec fn created(
        self,
        key: MockKeyView,
        payload: Result<serde_json::Value, Seq<char>>,
    ) -> (Self, Result<u64, ErrorView>) {
        match write_rejection(self.schema, key.sk, payload) {
            Some(error) => (self, Err(error)),
            None => if self.items.contains_key(key) {
                (self, Err(ErrorView::AlreadyExists { pk: key.pk, sk: key.sk }))
            } else {
                (
                    self.with(key, INITIAL_DATA_VERSION, payload->Ok_0),
                    Ok(INITIAL_DATA_VERSION),
                )
            },
        }
    }

    /// Replacing `key` with `payload`: only if it is stored at `expected_version`.
    pub open spec fn replaced(
        self,
        key: MockKeyView,
        expected_version: u64,
        payload: Result<serde_json::Value, Seq<char>>,
    ) -> (Self, Result<u64, ErrorView>) {
        match put_rejection(self.schema, key.sk, expected_version, payload) {
            Some(error) => (self, Err(error)),
            None => if self.version_of(key) == Some(expected_version) {
                (
                    self.with(key, self.next_version(key), payload->Ok_0),
                    Ok(self.next_version(key)),
                )
            } else {
                (self, Err(ErrorView::Conflict { pk: key.pk, sk: key.sk, expected_version }))
            },
        }
    }

    /// Overwriting `key` with `payload`, whatever is stored there.
    pub open spec fn overwritten(
        self,
        key: MockKeyView,
        payload: Result<serde_json::Value, Seq<char>>,
    ) -> (Self, Result<u64, ErrorView>) {
        match write_rejection(self.schema, key.sk, payload) {
            Some(error) => (self, Err(error)),
            None => (
                self.with(key, self.next_version(key), payload->Ok_0),
                Ok(self.next_version(key)),
            ),
        }
    }

    /// Deleting `key`.
    pub open spec fn deleted(self, key: MockKeyView) -> (Self, Result<(), ErrorView>) {
        if !self.schema.accepts(key.sk) {
            (self, Err(self.schema.sk_error()))
        } else {
            (self.without(key), Ok(()))
        }
    }

    /// Whether the version under `key` can be advanced, for a write that nothing refuses.
    pub open spec fn can_advance(
        self,
        key: MockKeyView,
        payload: Result<serde_json::Value, Seq<char>>,
    ) -> bool {
        write_rejection(self.schema, key.sk, payload) is None ==> self.version_of(key) != Some(
            u64::MAX,
        )
    }
}

/// The payload to store, once a write under `sk` has been checked against the schema.
pub fn check_write(
    schema: &PrimaryIndex,
    sk: &Option<String>,
    payload: Result<serde_json::Value, String>,
) -> (checked: Result<serde_json::Value, Error>)
    ensures
        match checked {
            Ok(value) => {
                &&& write_rejection(*schema, text::chars_of(*sk), payload_of(payload)) is None
                &&& payload_of(payload) == Ok::<serde_json::Value, Seq<char>>(value)
            },
            Err(error) => write_rejection(*schema, text::chars_of(*sk), payload_of(payload))
                == Some(error@),
        },
{
    match schema.resolve_sk(sk) {
        Ok(_) => match payload {
            Ok(value) => Ok(value),
            Err(reason) => {
                let mut message = "Failed to serialize mock payload: ".to_string();
                message.append(reason.as_str());
                Err(Error::Serialization(message))
            },
        },
        Err(error) => Err(error),
    }
}

/// The payload to store, once a write under `sk` that expects `expected_version` has been checked
/// against the schema. An expected version of zero is reserved.
pub fn check_put(
    schema: &PrimaryIndex,
    sk: &Option<String>,
    expected_version: u64,
    payload: Result<serde_json::Value, String>,
) -> (checked: Result<serde_json::Value, Error>)
    ensures
        match checked {
            Ok(value) => {
                &&& put_rejection(
                    *schema,
                    text::chars_of(*sk),
                    expected_version,
                    payload_of(payload),
                ) is None
                &&& payload_of(payload) == Ok::<serde_json::Value, Seq<char>>(value)
            },
            Err(error) => put_rejection(
                *schema,
                text::chars_of(*sk),
                expected_version,
                payload_of(payload),
            ) == Some(error@),
        },
{
    if expected_version == 0 {
        return Err(Error::zero_expected_version());
    }
    check_write(schema, sk, payload)
}

impl MockDynamoDb {
    /// Every stored key matches the schema.
    #[verifier::type_invariant]
    closed spec fn has_matching_keys(self) -> bool {
        self@.keys_match_schema()
    }

    /// Creates an empty mock store whose tables use `primary_index` as their primary key
    /// schema.
    pub fn new(primary_index: PrimaryIndex) -> (db: Self)
        ensures
            db@.schema == primary_index,
            db@.items == Map::<MockKeyView, (u64, serde_json::Value)>::empty(),
            db@.keys_match_schema(),
    {
        let db = MockDynamoDb { primary_index, items: AssocMap::new() };
        assert(db@.items =~= Map::<MockKeyView, (u64, serde_json::Value)>::empty());
        db
    }

    fn version(&self, key: &MockDbKey) -> (version: Option<u64>)
        ensures
            version == self@.version_of(key@),
    {
        match self.items.get(key) {
            Some(item) => Some(item.data_version()),
            None => None,
        }
    }

    fn store(&mut self, key: MockDbKey, version: u64, value: serde_json::Value)
        requires
            old(self)@.schema.accepts(key@.sk),
        ensures
            final(self)@ == old(self)@.with(key@, version, value),
            final(self)@.keys_match_schema(),
    {
        proof {
            use_type_invariant(&*self);
        }
        let ghost before = self@;
        let mut items: AssocMap<MockDbKey, Container<serde_json::Value>> = AssocMap::new();
        std::mem::swap(&mut items, &mut self.items);
        items.insert(key, Container::new(version, value));
        let ghost after = items@.map_values(|item: Container<serde_json::Value>| item@);
        assert(after =~= before.items.insert(key@, (version, value)));
        self.items = items;
    }

    /// Takes out the item under `key`.
    fn take(&mut self, key: &MockDbKey) -> (taken: Option<Container<serde_json::Value>>)
        ensures
            final(self)@ == old(self)@.without(key@),
            final(self)@.keys_match_schema(),
            match taken {
                Some(item) => old(self)@.stored(key@) == Some(item@),
                None => old(self)@.stored(key@) is None,
            },
    {
        proof {
            use_type_invariant(&*self);
        }
        let ghost before = self@;
        let mut items: AssocMap<MockDbKey, Container<serde_json::Value>> = AssocMap::new();
        std::mem::swap(&mut items, &mut self.items);
        let taken = items.remove(key);
        let ghost after = items@.map_values(|item: Container<serde_json::Value>| item@);
        assert(after =~= before.items.remove(key@));
        self.items = items;
        taken
    }

    /// Inserts (or replaces) an item under `(pk, sk)` in `table` with the given `data_version`
    /// and payload. `payload` is what serializing the payload came to.
    ///
    /// Intended for seeding test fixtures, including states the other operations cannot
    /// produce: an arbitrary `data_version`, or `0` to stand in for a legacy record written
    /// before versioning existed.
    pub fn insert(
        &mut self,
        pk: String,
        sk: Option<String>,
        table: &str,
        data_version: u64,
        payload: Result<serde_json::Value, String>,
    ) -> (result: Result<(), Error>)
        ensures
            (final(self)@, crate::error::outcome(result)) == old(self)@.seeded(
                key_of(table@, pk@, text::chars_of(sk)),
                data_version,
                payload_of(payload),
            ),
            final(self)@.keys_match_schema(),
    {
        proof {
            use_type_invariant(&*self);
        }
        let key = MockDbKey::new(table, &pk, &sk);
        match check_write(&self.primary_index, &sk, payload) {
            Ok(value) => {
                self.store(key, data_version, value);
                Ok(())
            },
            Err(error) => Err(error),
        }
    }

    /// Reads the item stored under `(pk, sk)` in `table` and, if present, returns the stored
    /// `data_version` together with the payload.
    ///
    /// [`Error::InvalidRequest`] if `sk` is not `Some` exactly when the schema has a sort key.
    pub fn get_item(&self, pk: String, sk: Option<String>, table: &str) -> (result: Result<
        Option<(u64, &serde_json::Value)>,
        Error,
    >)
        ensures
            match self@.read(key_of(table@, pk@, text::chars_of(sk))) {
                Ok(None) => result == Ok::<Option<(u64, &serde_json::Value)>, Error>(None),
                Ok(Some((version, value))) => result == Ok::<
                    Option<(u64, &serde_json::Value)>,
                    Error,
                >(Some((version, &value))),
                Err(error) => match result {
                    Ok(_) => false,
                    Err(e) => e@ == error,
                },
            },
    {
        let key = MockDbKey::new(table, &pk, &sk);
        match self.primary_index.resolve_sk(&sk) {
            Ok(_) => match self.items.get(&key) {
                Some(item) => Ok(Some((item.data_version(), item.payload()))),
                None => Ok(None),
            },
            Err(error) => Err(error),
        }
    }

    /// Writes `payload` under `(pk, sk)` in `table` at the initial version, but only if no item
    /// is stored under that key. Returns the new `data_version`.
    ///
    /// [`Error::AlreadyExists`] if an item is already stored under the key, leaving it
    /// untouched, whatever its version is.
    pub fn create_item(
        &mut self,
        pk: String,
        sk: Option<String>,
        table: &str,
        payload: Result<serde_json::Value, String>,
    ) -> (result: Result<u64, Error>)
        ensures
            (final(self)@, crate::error::outcome(result)) == old(self)@.created(
                key_of(table@, pk@, text::chars_of(sk)),
                payload_of(payload),
            ),
            final(self)@.keys_match_schema(),
    {
        proof {
            use_type_invariant(&*self);
        }
        let key = MockDbKey::new(table, &pk, &sk);
        match check_write(&self.primary_index, &sk, payload) {
            Ok(value) => {
                if self.version(&key).is_some() {
                    return Err(Error::AlreadyExists { pk, sk });
                }
                self.store(key, INITIAL_DATA_VERSION, value);
                Ok(INITIAL_DATA_VERSION)
            },
            Err(error) => Err(error),
        }
    }

    /// Last-writer-wins write, with no expectation about the item's current contents. Returns
    /// the new `data_version`.
    ///
    /// The version advances: one past whatever was stored, or the initial version if the key
    /// was absent. It is never rewound, so a `data_version` a caller has already spent can never
    /// become valid again.
    pub fn put_item_unconditional(
        &mut self,
        pk: String,
        sk: Option<String>,
        table: &str,
        payload: Result<serde_json::Value, String>,
    ) -> (result: Result<u64, Error>)
        requires
            old(self)@.can_advance(
                key_of(table@, pk@, text::chars_of(sk)),
                payload_of(payload),
            ),
        ensures
            (final(self)@, crate::error::outcome(result)) == old(self)@.overwritten(
                key_of(table@, pk@, text::chars_of(sk)),
                payload_of(payload),
            ),
            final(self)@.keys_match_schema(),
    {
        proof {
            use_type_invariant(&*self);
        }
        let key = MockDbKey::new(table, &pk, &sk);
        match check_write(&self.primary_index, &sk, payload) {
            Ok(value) => {
                let new_version: u64 = match self.version(&key) {
                    Some(version) => version + 1,
                    None => INITIAL_DATA_VERSION,
                };
                self.store(key, new_version, value);
                Ok(new_version)
            },
            Err(error) => Err(error),
        }
    }

    /// Writes `payload` under `(pk, sk)` in `table`, but only if the currently stored
    /// `data_version` matches `expected_version` (which must be > 0). Returns the new
    /// `data_version`, one past it.
    ///
    /// [`Error::Conflict`] if the version check fails or the item does not exist, leaving the
    /// table untouched. [`Error::InvalidRequest`] if `expected_version` is `0` (reserved), or if
    /// `sk` is not `Some` exactly when the schema has a sort key.
    pub fn put_item(
        &mut self,
        pk: String,
        sk: Option<String>,
        table: &str,
        expected_version: u64,
        payload: Result<serde_json::Value, String>,
    ) -> (result: Result<u64, Error>)
        requires
            expected_version == u64::MAX ==> old(self)@.can_advance(
                key_of(table@, pk@, text::chars_of(sk)),
                payload_of(payload),
            ),
        ensures
            (final(self)@, crate::error::outcome(result)) == old(self)@.replaced(
                key_of(table@, pk@, text::chars_of(sk)),
                expected_version,
                payload_of(payload),
            ),
            final(self)@.keys_match_schema(),
    {
        proof {
            use_type_invariant(&*self);
        }
        let key = MockDbKey::new(table, &pk, &sk);
        match check_put(&self.primary_index, &sk, expected_version, payload) {
            Ok(value) => {
                // The stored version (or its absence) must match what the caller expects,
                // otherwise a concurrent writer has changed the item.
                let current = match self.version(&key) {
                    Some(version) => version == expected_version,
                    None => false,
                };
                if !current {
                    return Err(Error::Conflict { pk, sk, expected_version });
                }
                let new_version: u64 = expected_version + 1;
                self.store(key, new_version, value);
                Ok(new_version)
            },
            Err(error) => Err(error),
        }
    }

    /// Removes the item stored under `(pk, sk)` in `table`. Deleting a key that does not exist
    /// succeeds and is a no-op.
    pub fn delete_item(&mut self, pk: String, sk: Option<String>, table: &str) -> (result: Result<
        (),
        Error,
    >)
        ensures
            (final(self)@, crate::error::outcome(result)) == old(self)@.deleted(
                key_of(table@, pk@, text::chars_of(sk)),
            ),
            final(self)@.keys_match_schema(),
    {
        proof {
            use_type_invariant(&*self);
        }
        let key = MockDbKey::new(table, &pk, &sk);
        match self.primary_index.resolve_sk(&sk) {
            Ok(_) => {
                let _ = self.take(&key);
                Ok(())
            },
            Err(error) => Err(error),
        }
    }
}

// ---------------------------------------------------------------------------------------------
// Queries
// ---------------------------------------------------------------------------------------------

/// The key values under which an index lists an item, given the item's primary key and what its
/// payload holds in the index's own key attributes; `None` if the index does not list the item.
///
/// The primary index's key values are the item's own key. GSI key values are regular attributes
/// of the payload. LSIs share the base table's partition key but have their own sort key
/// attribute, just like a GSI's.
pub open spec fn listed_under(
    index: AnyIndex,
    pk: Seq<char>,
    sk: Option<Seq<char>>,
    pk_attribute: Option<Seq<char>>,
    sk_attribute: Option<Seq<char>>,
) -> Option<(Seq<char>, Option<Seq<char>>)> {
    match index {
        AnyIndex::Primary(_) => Some((pk, sk)),
        AnyIndex::Lsi(_) => Some((pk, sk_attribute)),
        AnyIndex::Gsi(_) => match pk_attribute {
            Some(pk_attribute) => Some((pk_attribute, sk_attribute)),
            None => None,
        },
    }
}

/// The text that a payload holds in the attribute `name`, if there is such an attribute.
pub open spec fn named_text(payload: serde_json::Value, name: Option<Seq<char>>) -> Option<
    Seq<char>,
> {
    match name {
        Some(name) => json::text_member(payload, name),
        None => None,
    }
}

/// The key values under which `index` lists the item `payload` stored under `key`.
pub open spec fn index_keys(
    index: AnyIndex,
    schema: PrimaryIndex,
    key: MockKeyView,
    payload: serde_json::Value,
) -> Option<(Seq<char>, Option<Seq<char>>)> {
    listed_under(
        index,
        key.pk,
        key.sk,
        json::text_member(payload, index.pk_name(schema)),
        named_text(payload, index.sk_name()),
    )
}

/// The key values of an item as a pair of texts, by their characters.
pub open spec fn keys_view(keys: Option<(String, Option<String>)>) -> Option<
    (Seq<char>, Option<Seq<char>>),
> {
    match keys {
        Some((pk, sk)) => Some((pk@, text::chars_of(sk))),
        None => None,
    }
}

/// The key values under which an index lists an item, given the item's primary key and what its
/// payload holds in the index's own key attributes.
pub fn list_under(
    index: &AnyIndex,
    pk: &String,
    sk: &Option<String>,
    pk_attribute: Option<String>,
    sk_attribute: Option<String>,
) -> (keys: Option<(String, Option<String>)>)
    ensures
        keys_view(keys) == listed_under(
            *index,
            pk@,
            text::chars_of(*sk),
            text::chars_of(pk_attribute),
            text::chars_of(sk_attribute),
        ),
{
    match index {
        AnyIndex::Primary(_) => Some((pk.clone(), clone_text(sk))),
        AnyIndex::Lsi(_) => Some((pk.clone(), sk_attribute)),
        AnyIndex::Gsi(_) => match pk_attribute {
            Some(pk_attribute) => Some((pk_attribute, sk_attribute)),
            None => None,
        },
    }
}

/// A query: the index it is on, the partition key, the condition on the sort key, and the table.
pub struct QueryView {
    pub index: AnyIndex,
    pub pk: Seq<char>,
    pub condition: Option<SortKeyCondition>,
    pub table: Seq<char>,
}

impl QueryView {
    /// Whether the query finds the item `payload` stored under `key`.
    pub open spec fn finds(
        self,
        schema: PrimaryIndex,
        key: MockKeyView,
        payload: serde_json::Value,
    ) -> bool {
        &&& key.table == self.table
        &&& index_keys(self.index, schema, key, payload) matches Some((pk, sk))
        &&& pk == self.pk
        &&& self.condition matches Some(condition) ==> condition.admits(sk)
    }

    /// The sort key by which the query orders an item; an item without one comes first.
    pub open spec fn sort_key(
        self,
        schema: PrimaryIndex,
        key: MockKeyView,
        payload: serde_json::Value,
    ) -> Seq<char> {
        match index_keys(self.index, schema, key, payload) {
            Some((_, Some(sk))) => sk,
            _ => Seq::empty(),
        }
    }
}

impl MockView {
    /// Whether the query finds what is stored under `key`.
    pub open spec fn found_by(self, query: QueryView, key: MockKeyView) -> bool {
        self.items.contains_key(key) && query.finds(self.schema, key, self.items[key].1)
    }

    /// The sort key by which the query orders what is stored under `key`.
    pub open spec fn order_of(self, query: QueryView, key: MockKeyView) -> Seq<char> {
        query.sort_key(self.schema, key, self.items[key].1)
    }

    /// Whether `keys` are the keys that the query finds, each once, ordered by sort key.
    pub open spec fn lists(self, query: QueryView, keys: Seq<MockKeyView>) -> bool {
        &&& keys.no_duplicates()
        &&& forall|key: MockKeyView| #[trigger] keys.contains(key) <==> self.found_by(query, key)
        &&& forall|i: int, j: int|
            0 <= i < j < keys.len() ==> text::text_le(
                self.order_of(query, #[trigger] keys[i]),
                self.order_of(query, #[trigger] keys[j]),
            )
    }

    /// The versions and payloads stored under `keys`.
    pub open spec fn rows(self, keys: Seq<MockKeyView>) -> Seq<(u64, serde_json::Value)> {
        keys.map_values(|key: MockKeyView| self.items[key])
    }

    /// Whether `rows` answers the query: the versions and payloads of the items that it finds,
    /// each once, ordered by sort key. Items with the same sort key come in any order.
    pub open spec fn answers(self, query: QueryView, rows: Seq<(u64, serde_json::Value)>) -> bool {
        exists|keys: Seq<MockKeyView>| #[trigger] self.lists(query, keys) && rows == self.rows(keys)
    }
}

/// The rows of an answer.
pub open spec fn row_values(rows: Seq<(u64, &serde_json::Value)>) -> Seq<
    (u64, serde_json::Value),
> {
    rows.map_values(|row: (u64, &serde_json::Value)| (row.0, *row.1))
}

/// The position behind the last of `sorted` that is at most `text`.
fn position_behind(sorted: &Vec<String>, text: &String) -> (position: usize)
    requires
        forall|i: int, j: int|
            0 <= i < j < sorted@.len() ==> text::text_le(
                (#[trigger] sorted@[i])@,
                (#[trigger] sorted@[j])@,
            ),
    ensures
        position <= sorted@.len(),
        forall|i: int| 0 <= i < position ==> text::text_le((#[trigger] sorted@[i])@, text@),
        forall|i: int|
            position <= i < sorted@.len() ==> text::text_le(text@, (#[trigger] sorted@[i])@),
{
    let mut position: usize = 0;
    while position < sorted.len()
        invariant
            position <= sorted@.len(),
            forall|i: int, j: int|
                0 <= i < j < sorted@.len() ==> text::text_le(
                    (#[trigger] sorted@[i])@,
                    (#[trigger] sorted@[j])@,
                ),
            forall|i: int| 0 <= i < position ==> text::text_le((#[trigger] sorted@[i])@, text@),
        decreases sorted@.len() - position,
    {
        if !is_at_most(sorted[position].as_str(), text.as_str()) {
            proof {
                let at = position as int;
                text::lemma_text_le_total(sorted@[at]@, text@);
                assert forall|i: int| at <= i < sorted@.len() implies text::text_le(
                    text@,
                    (#[trigger] sorted@[i])@,
                ) by {
                    if i > at {
                        text::lemma_text_le_transitive(text@, sorted@[at]@, sorted@[i]@);
                    }
                }
            }
            return position;
        }
        position = position + 1;
    }
    position
}

impl MockDynamoDb {
    fn keys_in(&self, index: &AnyIndex, key: &MockDbKey, payload: &serde_json::Value) -> (keys:
        Option<(String, Option<String>)>)
        ensures
            keys_view(keys) == index_keys(*index, self@.schema, key@, *payload),
    {
        let pk_attribute = member_text(payload, index.pk_identifier(&self.primary_index));
        let sk_attribute = match index.sk_identifier() {
            Some(name) => member_text(payload, name),
            None => None,
        };
        list_under(index, &key.pk, &key.sk, pk_attribute, sk_attribute)
    }

    /// Returns the items stored under partition key `pk` in `index`, narrowed by `sk_condition`
    /// if it is given, ordered by sort key: for each its stored `data_version` and payload.
    ///
    /// [`Error::InvalidRequest`] if `sk_condition` is given but `index` has no sort key,
    /// [`Error::Unsupported`] if the condition isn't implemented.
    #[verifier::loop_isolation(false)]
    pub fn query_items(
        &self,
        index: AnyIndex,
        pk: String,
        sk_condition: Option<SortKeyCondition>,
        table: &str,
    ) -> (result: Result<Vec<(u64, &serde_json::Value)>, Error>)
        ensures
            self@.keys_match_schema(),
            match crate::schema::query_rejection(index, sk_condition, "MockDynamoDb"@) {
                Some(error) => match result {
                    Ok(_) => false,
                    Err(e) => e@ == error,
                },
                None => match result {
                    Ok(rows) => self@.answers(
                        QueryView { index, pk: pk@, condition: sk_condition, table: table@ },
                        row_values(rows@),
                    ),
                    Err(_) => false,
                },
            },
    {
        proof {
            use_type_invariant(self);
        }
        match check_query(&index, &sk_condition, "MockDynamoDb") {
            Ok(()) => {},
            Err(error) => {
                return Err(error);
            },
        }
        let ghost query = QueryView { index, pk: pk@, condition: sk_condition, table: table@ };
        let ghost mut keys: Seq<MockKeyView> = Seq::empty();
        let table_name = table.to_string();
        let mut sort_keys: Vec<String> = Vec::new();
        let mut rows: Vec<(u64, &serde_json::Value)> = Vec::new();
        let count: usize = self.items.len();
        let mut i: usize = 0;
        while i < count
            invariant
                i <= count,
                sort_keys@.len() == keys.len(),
                rows@.len() == keys.len(),
                keys.no_duplicates(),
                forall|a: int|
                    0 <= a < keys.len() ==> {
                        &&& self@.found_by(query, #[trigger] keys[a])
                        &&& sort_keys@[a]@ == self@.order_of(query, keys[a])
                        &&& (rows@[a].0, *rows@[a].1) == self@.items[keys[a]]
                        &&& exists|j: int| 0 <= j < i && #[trigger] self.items.key_at(j) == keys[a]
                    },
                forall|j: int|
                    0 <= j < i && self@.found_by(query, #[trigger] self.items.key_at(j))
                        ==> keys.contains(self.items.key_at(j)),
                forall|a: int, b: int|
                    0 <= a < b < sort_keys@.len() ==> text::text_le(
                        (#[trigger] sort_keys@[a])@,
                        (#[trigger] sort_keys@[b])@,
                    ),
            decreases count - i,
        {
            let (key, item) = self.items.entry(i);
            let ghost before = keys;
            let ghost k = key@;
            assert(self@.items[k] == item@);
            if key.table_name == table_name {
                if let Some((item_pk, item_sk)) = self.keys_in(&index, key, item.payload()) {
                    let admitted = match &sk_condition {
                        Some(condition) => condition.holds(borrow_text(&item_sk)),
                        None => true,
                    };
                    if item_pk == pk && admitted {
                        assert(self@.found_by(query, k));
                        let sort_key = match item_sk {
                            Some(sk) => sk,
                            None => String::new(),
                        };
                        assert(sort_key@ == self@.order_of(query, k));
                        let at: usize = position_behind(&sort_keys, &sort_key);
                        let ghost old_sort = sort_keys@;
                        let ghost old_rows = rows@;
                        rows.insert(at, (item.data_version(), item.payload()));
                        sort_keys.insert(at, sort_key);
                        proof {
                            keys = before.insert(at as int, k);
                            lemma_insert(before, at as int, k);
                            assert forall|a: int| 0 <= a < keys.len() implies {
                                &&& self@.found_by(query, #[trigger] keys[a])
                                &&& sort_keys@[a]@ == self@.order_of(query, keys[a])
                                &&& (rows@[a].0, *rows@[a].1) == self@.items[keys[a]]
                                &&& exists|j: int|
                                    0 <= j < i + 1 && #[trigger] self.items.key_at(j) == keys[a]
                            } by {
                                if a < at {
                                    assert(keys[a] == before[a]);
                                } else if a == at {
                                    assert(self.items.key_at(i as int) == keys[a]);
                                } else {
                                    assert(keys[a] == before[a - 1]);
                                }
                            }
                        }
                    }
                }
            }
            proof {
                assert forall|j: int|
                    0 <= j < i + 1 && self@.found_by(
                        query,
                        #[trigger] self.items.key_at(j),
                    ) implies keys.contains(self.items.key_at(j)) by {
                    if j < i {
                        assert(before.contains(self.items.key_at(j)));
                    }
                }
            }
            i = i + 1;
        }
        proof {
            assert forall|key: MockKeyView| #[trigger]
                keys.contains(key) <==> self@.found_by(query, key) by {
                if self@.found_by(query, key) {
                    assert(self.items@.contains_key(key));
                }
            }
            assert forall|a: int, b: int| 0 <= a < b < keys.len() implies text::text_le(
                self@.order_of(query, #[trigger] keys[a]),
                self@.order_of(query, #[trigger] keys[b]),
            ) by {
                assert(text::text_le(sort_keys@[a]@, sort_keys@[b]@));
            }
            assert(self@.lists(query, keys));
            assert(row_values(rows@) =~= self@.rows(keys));
        }
        Ok(rows)
    }
}

/// Inserting a new element keeps a sequence free of duplicates and adds that element alone.
proof fn lemma_insert<A>(s: Seq<A>, at: int, a: A)
    requires
        s.no_duplicates(),
        !s.contains(a),
        0 <= at <= s.len(),
    ensures
        s.insert(at, a).no_duplicates(),
        forall|x: A| #[trigger] s.insert(at, a).contains(x) <==> s.contains(x) || x == a,
{
    let t = s.insert(at, a);
    assert forall|i: int, j: int| 0 <= i < t.len() && 0 <= j < t.len() && i != j implies t[i]
        != t[j] by {
        let x = if i < at { i } else { i - 1 };
        let y = if j < at { j } else { j - 1 };
        if i == at {
            assert(s.contains(s[y]));
        } else if j == at {
            assert(s.contains(s[x]));
        } else {
            assert(s[x] != s[y]);
        }
    }
    assert forall|x: A| #[trigger] t.contains(x) <==> s.contains(x) || x == a by {
        if s.contains(x) {
            let i = choose|i: int| 0 <= i < s.len() && s[i] == x;
            assert(t[if i < at { i } else { i + 1 }] == x);
        }
        if x == a {
            assert(t[at] == x);
        }
        if t.contains(x) && x != a {
            let i = choose|i: int| 0 <= i < t.len() && t[i] == x;
            assert(s[if i < at { i } else { i - 1 }] == x);
        }
    }
}

// ---------------------------------------------------------------------------------------------
// Counters
// ---------------------------------------------------------------------------------------------

/// The members of the payload stored for an item; an absent item has none.
pub open spec fn stored_members(item: Option<(u64, serde_json::Value)>) -> Map<
    Seq<char>,
    serde_json::Value,
> {
    match item {
        Some((_, payload)) => json::json_members(payload),
        None => Map::empty(),
    }
}

/// What the counter in `attribute` of an item stands at: zero while the item or the attribute is
/// absent, and nothing when the item holds something else there, or cannot hold attributes.
pub open spec fn counter_of(item: Option<(u64, serde_json::Value)>, attribute: Seq<char>) -> Option<
    i64,
> {
    if item matches Some((_, payload)) && !json::json_is_object(payload) {
        None
    } else if stored_members(item).contains_key(attribute) {
        json::json_integer(stored_members(item)[attribute])
    } else {
        Some(0)
    }
}

/// The refusal to count in an attribute that holds no integer.
pub open spec fn not_a_counter(pk: Seq<char>, attribute: Seq<char>) -> ErrorView {
    ErrorView::Service(
        "mock item for pk="@ + pk + " holds no integer in "@ + text::quoted(attribute),
    )
}

/// The refusal of a count that does not fit.
pub open spec fn counter_overflow(pk: Seq<char>, attribute: Seq<char>, delta: i64) -> ErrorView {
    ErrorView::Serialization(
        "Counter "@ + text::quoted(attribute) + " for pk="@ + pk + " is not an i64 after adding "@
            + text::signed_decimal(delta as int),
    )
}

impl MockView {
    /// What is stored under `key`, if anything is.
    pub open spec fn stored(self, key: MockKeyView) -> Option<(u64, serde_json::Value)> {
        if self.items.contains_key(key) {
            Some(self.items[key])
        } else {
            None
        }
    }

    /// What adding `delta` to the counter in `attribute` of `key` returns.
    pub open spec fn count(
        self,
        key: MockKeyView,
        attribute: Seq<char>,
        delta: i64,
    ) -> Result<i64, ErrorView> {
        if self.schema.reserves(attribute) {
            Err(PrimaryIndex::counter_attribute_error(attribute))
        } else if !self.schema.accepts(key.sk) {
            Err(self.schema.sk_error())
        } else {
            match counter_of(self.stored(key), attribute) {
                None => Err(not_a_counter(key.pk, attribute)),
                Some(n) => if i64::MIN <= n + delta <= i64::MAX {
                    Ok((n + delta) as i64)
                } else {
                    Err(counter_overflow(key.pk, attribute, delta))
                },
            }
        }
    }

    /// Whether adding `delta` to the counter in `attribute` of `key` leaves `after`: a refused
    /// count changes nothing; one that goes through stores the new count, keeps every other
    /// member of the payload, and advances the version.
    pub open spec fn counted(
        self,
        after: Self,
        key: MockKeyView,
        attribute: Seq<char>,
        delta: i64,
    ) -> bool {
        match self.count(key, attribute, delta) {
            Err(_) => after == self,
            Ok(n) => {
                let payload = after.items[key].1;
                &&& after == self.with(key, self.next_version(key), payload)
                &&& json::json_is_object(payload)
                &&& json::json_members(payload) == stored_members(self.stored(key)).insert(
                    attribute,
                    json::json_members(payload)[attribute],
                )
                &&& json::json_integer(json::json_members(payload)[attribute]) == Some(n)
            },
        }
    }
}

impl MockDynamoDb {
    /// What the counter in `attribute` of the item under `key` stands at.
    fn counter(&self, key: &MockDbKey, attribute: &str) -> (n: Option<i64>)
        ensures
            n == counter_of(self@.stored(key@), attribute@),
    {
        match self.items.get(key) {
            Some(item) => if !is_object(item.payload()) {
                None
            } else {
                match member(item.payload(), attribute) {
                    Some(value) => as_integer(value),
                    None => Some(0),
                }
            },
            None => Some(0),
        }
    }

    /// What adding `delta` to the integer in `counter_attribute` of the item under `(pk, sk)` in
    /// `table` would return.
    pub fn count(
        &self,
        pk: &String,
        sk: &Option<String>,
        table: &str,
        counter_attribute: &str,
        delta: i64,
    ) -> (result: Result<i64, Error>)
        ensures
            crate::error::outcome(result) == self@.count(
                key_of(table@, pk@, text::chars_of(*sk)),
                counter_attribute@,
                delta,
            ),
    {
        match self.primary_index.validate_counter_attribute(counter_attribute) {
            Ok(()) => {},
            Err(error) => {
                return Err(error);
            },
        }
        match self.primary_index.resolve_sk(sk) {
            Ok(_) => {},
            Err(error) => {
                return Err(error);
            },
        }
        let key = MockDbKey::new(table, pk, sk);
        let n: i64 = match self.counter(&key, counter_attribute) {
            Some(n) => n,
            None => {
                let mut message = "mock item for pk=".to_string();
                message.append(pk.as_str());
                message.append(" holds no integer in ");
                message.append(quote(counter_attribute).as_str());
                return Err(Error::Service(message));
            },
        };
        match n.checked_add(delta) {
            Some(sum) => Ok(sum),
            None => {
                let mut message = "Counter ".to_string();
                message.append(quote(counter_attribute).as_str());
                message.append(" for pk=");
                message.append(pk.as_str());
                message.append(" is not an i64 after adding ");
                message.append(i64_text(delta).as_str());
                Err(Error::Serialization(message))
            },
        }
    }

    /// Adds `delta` to the integer in `counter_attribute` of the item under `(pk, sk)` in
    /// `table`, and returns the new value.
    ///
    /// An absent attribute counts from zero, and an absent item is created. The version advances
    /// in the same step, so a record without one lands on the initial version.
    ///
    /// [`Error::InvalidRequest`] if the attribute is part of the primary key or holds the
    /// version, or if `sk` is not `Some` exactly when the schema has a sort key.
    /// [`Error::Service`] if the attribute holds something other than an integer, and
    /// [`Error::Serialization`] if the new value does not fit.
    pub fn add_to_counter(
        &mut self,
        pk: String,
        sk: Option<String>,
        table: &str,
        counter_attribute: &str,
        delta: i64,
    ) -> (result: Result<i64, Error>)
        requires
            old(self)@.count(
                key_of(table@, pk@, text::chars_of(sk)),
                counter_attribute@,
                delta,
            ) is Ok ==> old(self)@.version_of(key_of(table@, pk@, text::chars_of(sk))) != Some(
                u64::MAX,
            ),
        ensures
            crate::error::outcome(result) == old(self)@.count(
                key_of(table@, pk@, text::chars_of(sk)),
                counter_attribute@,
                delta,
            ),
            old(self)@.counted(
                final(self)@,
                key_of(table@, pk@, text::chars_of(sk)),
                counter_attribute@,
                delta,
            ),
            final(self)@.keys_match_schema(),
    {
        proof {
            use_type_invariant(&*self);
        }
        let sum: i64 = match self.count(&pk, &sk, table, counter_attribute, delta) {
            Ok(sum) => sum,
            Err(error) => {
                return Err(error);
            },
        };
        let ghost before = self@;
        let key = MockDbKey::new(table, &pk, &sk);
        let (new_version, mut payload) = match self.take(&key) {
            Some(item) => {
                let (version, payload) = item.into_parts();
                (version + 1, payload)
            },
            None => (INITIAL_DATA_VERSION, empty_object()),
        };
        proof {
            if before.stored(key@) is None {
                assert(json::json_members(payload) =~= stored_members(before.stored(key@)));
            }
        }
        let value = integer(sum);
        set_member(&mut payload, counter_attribute, value);
        self.store(key, new_version, payload);
        proof {
            assert(self@ =~= before.with(key@, new_version, payload));
            assert(json::json_members(payload)[counter_attribute@] == value);
            assert(json::json_members(payload) =~= stored_members(before.stored(key@)).insert(
                counter_attribute@,
                value,
            ));
        }
        Ok(sum)
    }
}

} // verus!
