//! What is sent to a real DynamoDB table, and what becomes of its replies.
//!
//! Nothing here talks to the network: [`request`] and [`guarded`] build requests out of plain
//! values, and [`reply`] and [`guarded`] turn replies, once they are in, into results. [`service`]
//! says what the laws take the service to do in between.

pub mod expression;
pub mod guarded;
pub mod item;
pub mod reply;
pub mod request;
pub mod service;

use crate::error::Error;
use crate::schema::PrimaryIndex;
use crate::text;
use vstd::prelude::*;

verus! {

/// An adapter to a real DynamoDB table, which `client` talks to.
#[derive(Debug, Clone)]
pub struct AwsDynamoDb<C> {
    client: C,
    primary_index: PrimaryIndex,
}

impl<C> AwsDynamoDb<C> {
    /// The client that talks to the table.
    pub closed spec fn client_of(&self) -> C {
        self.client
    }

    /// The primary key schema of the base table.
    pub closed spec fn schema(&self) -> PrimaryIndex {
        self.primary_index
    }

    /// Creates a new adapter using an existing client.
    ///
    /// `primary_index` describes the attribute names of the base table's primary key; it's used
    /// for every operation on a single item.
    pub fn from_client(client: C, primary_index: PrimaryIndex) -> (db: Self)
        ensures
            db.client_of() == client,
            db.schema() == primary_index,
    {
        AwsDynamoDb { client, primary_index }
    }

    /// The client that talks to the table.
    pub fn client(&self) -> (client: &C)
        ensures
            *client == self.client_of(),
    {
        &self.client
    }

    /// The primary key schema of the base table.
    pub fn primary_index(&self) -> (primary_index: &PrimaryIndex)
        ensures
            *primary_index == self.schema(),
    {
        &self.primary_index
    }

    /// Resolves `sk` against the configured [`PrimaryIndex`], returning the sort key's
    /// attribute name paired with the value when the table has one. `Err` if `sk` doesn't
    /// match whether the table actually has a sort key.
    pub fn resolve_sk(&self, sk: &Option<String>) -> (resolved: Result<Option<(&str, String)>, Error>)
        ensures
            match resolved {
                Ok(attribute) => self.schema().accepts(text::chars_of(*sk))
                    && crate::schema::attribute_of(attribute) == self.schema().sk_attribute(
                    text::chars_of(*sk),
                ),
                Err(error) => !self.schema().accepts(text::chars_of(*sk)) && error@
                    == self.schema().sk_error(),
            },
    {
        self.primary_index.resolve_sk(sk)
    }
}

} // verus!
