//! A DynamoDB abstraction with optimistic concurrency control built in.
//!
//! Every item is stored alongside a `data_version`, and the write operations are defined by what
//! they expect that version to be. See the crate's README for the layout of the modules.

pub mod assoc;
pub mod aws;
pub mod container;
pub mod decode;
pub mod error;
pub mod json;
pub mod laws;
pub mod mock;
pub mod schema;
pub mod text;

pub use container::Container;
pub use error::Error;
pub use schema::{
    AnyIndex, GlobalSecondaryIndex, KeySchema, LocalSecondaryIndex, PrimaryIndex, SortKeyCondition,
    DATA_VERSION_ATTRIBUTE, INITIAL_DATA_VERSION,
};
