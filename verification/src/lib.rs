//! Replica synchronisation and undo journalling for a collection of cards,
//! notes and review-log entries.
//!
//! A collection holds its objects in tables by id. Objects that were changed
//! since the last synchronisation carry a pending mark in place of a
//! sequence number; they are sent to the other replica in chunks, and the
//! chunks that the other replica sends are merged, the newer object winning.
//! Changes that the user makes in between are recorded in an undo journal,
//! each with what is needed to reverse it; renaming a tag is such a change
//! that reaches notes, review-log entries and the registry of tags at once.
//!
//! Contracts are stated over what a collection holds (`CollectionState`):
//! an operation ensures that the state after it is a given function of the
//! state before it.

pub mod card;
pub mod chunks;
pub mod collection;
pub mod draw;
pub mod error;
pub mod inbound;
pub mod matcher;
pub mod notes;
pub mod ops;
pub mod outbound;
pub mod pb;
pub mod register;
pub mod rename;
pub mod revlog;
pub mod revlog_queries;
pub mod revlog_undo;
pub mod schema;
pub mod storage;
pub mod sync;
pub mod table;
pub mod tags;
pub mod text;
pub mod types;
pub mod undo;
pub mod version;
