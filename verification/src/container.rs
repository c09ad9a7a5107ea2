//! The stored representation of an item.

use vstd::prelude::*;

verus! {

/// The stored representation of an item, minus its primary key.
///
/// The primary key attributes are written and read separately (under whatever attribute names
/// the configured primary index specifies), so they deliberately aren't fields here.
#[derive(Debug, Clone)]
pub struct Container<T> {
    /// Data version used for optimistic concurrency control. Zero for a record that carries no
    /// version number (a legacy record).
    data_version: u64,
    /// The actual payload data.
    payload: T,
}

impl<T> View for Container<T> {
    type V = (u64, T);

    closed spec fn view(&self) -> (u64, T) {
        (self.data_version, self.payload)
    }
}

impl<T> Container<T> {
    /// An item holding `payload` at `data_version`.
    pub fn new(data_version: u64, payload: T) -> (container: Self)
        ensures
            container@ == (data_version, payload),
    {
        Container { data_version, payload }
    }

    /// The stored version.
    pub fn data_version(&self) -> (data_version: u64)
        ensures
            data_version == self@.0,
    {
        self.data_version
    }

    /// The stored payload.
    pub fn payload(&self) -> (payload: &T)
        ensures
            *payload == self@.1,
    {
        &self.payload
    }

    /// The stored version and payload.
    pub fn into_parts(self) -> (parts: (u64, T))
        ensures
            parts == self@,
    {
        (self.data_version, self.payload)
    }
}

} // verus!
