//! What an operation on the collection reports to its caller.

use vstd::prelude::*;

verus! {

/// The kind of an operation.
#[derive(Clone, Copy, Debug, PartialEq, Eq, Structural)]
pub enum Op {
    UpdateRevlogEntry,
    RemoveRevlogEntry,
    RenameTag,
}

/// Which kinds of objects an operation changed.
#[derive(Clone, Copy, Debug, PartialEq, Eq, Structural)]
pub struct StateChanges {
    pub card: bool,
    pub note: bool,
    pub deck: bool,
    pub tag: bool,
    pub notetype: bool,
    pub config: bool,
    pub deck_config: bool,
    pub mtime: bool,
    pub revlog_entry: bool,
}

/// An operation and what it changed.
#[derive(Clone, Copy, Debug, PartialEq, Eq, Structural)]
pub struct OpChanges {
    pub op: Op,
    pub changes: StateChanges,
}

/// The result of an operation, with what the operation changed.
#[derive(Debug)]
pub struct OpOutput<T> {
    pub output: T,
    pub changes: OpChanges,
}

impl StateChanges {
    /// No change of any kind.
    pub open spec fn spec_none() -> StateChanges {
        StateChanges {
            card: false,
            note: false,
            deck: false,
            tag: false,
            notetype: false,
            config: false,
            deck_config: false,
            mtime: false,
            revlog_entry: false,
        }
    }

    /// No change of any kind.
    pub fn none() -> (changes: StateChanges)
        ensures
            changes == StateChanges::spec_none(),
    {
        StateChanges {
            card: false,
            note: false,
            deck: false,
            tag: false,
            notetype: false,
            config: false,
            deck_config: false,
            mtime: false,
            revlog_entry: false,
        }
    }
}

impl Default for StateChanges {
    fn default() -> (changes: StateChanges)
        ensures
            changes == StateChanges::spec_none(),
    {
        StateChanges::none()
    }
}

} // verus!
