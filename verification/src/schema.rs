//! The extended schema: the record of its version, and the steps that
//! bring a storage to it.

use crate::error::AnkiError;
use crate::error::DbErrorKind;
use crate::storage::SqliteStorage;
use crate::text::chars_eq;
use crate::text::chars_of;
use vstd::prelude::*;
use vstd::string::StringExecFns;

verus! {

/// The version that the record of the extended schema starts at.
pub const ANKIMATH_FIRST_VERSION: u64 = 202212011737;

/// The version of the extended schema in which review-log entries carry
/// feedback and tags.
pub const ANKIMATH_VERSION_202301121442: u64 = 202301121442;

/// The name of the table that records the version of the extended schema.
pub const ANKIMATH_INFO_TABLE: &'static str = "ankimath_info";

/// Whether a storage always has a table named `name`.
pub open spec fn is_base_table(name: Seq<char>) -> bool {
    ||| name == "col"@
    ||| name == "notes"@
    ||| name == "cards"@
    ||| name == "revlog"@
    ||| name == "tags"@
    ||| name == "notetypes"@
}

/// Whether `a` and `b` are the same text.
fn same_text(a: &str, b: &str) -> (same: bool)
    ensures
        same == (a@ == b@),
{
    let a = chars_of(a);
    let b = chars_of(b);
    chars_eq(&a, &b)
}

impl SqliteStorage {
    /// Whether the storage has a table named `name`: one of the tables that
    /// every storage has, or the record of the extended schema if it was
    /// made.
    pub open spec fn has_table(&self, name: Seq<char>) -> bool {
        is_base_table(name) || (name == ANKIMATH_INFO_TABLE@ && self.ankimath_version is Some)
    }

    /// Whether the storage has a table named `table_name`.
    pub fn database_has_table(&self, table_name: &str) -> (found: bool)
        ensures
            found == self.has_table(table_name@),
    {
        same_text(table_name, "col") || same_text(table_name, "notes") || same_text(
            table_name,
            "cards",
        ) || same_text(table_name, "revlog") || same_text(table_name, "tags") || same_text(
            table_name,
            "notetypes",
        ) || (self.ankimath_version.is_some() && same_text(table_name, ANKIMATH_INFO_TABLE))
    }

    /// The version of the extended schema. Fails where the storage has no
    /// record of it.
    pub fn db_ankimath_version(&self) -> (result: Result<u64, AnkiError>)
        ensures
            match self.ankimath_version {
                Some(version) => result == Ok::<u64, AnkiError>(version),
                None => result matches Err(AnkiError::DbError { kind, .. }) && kind
                    == DbErrorKind::MissingEntity,
            },
    {
        match self.ankimath_version {
            Some(version) => Ok(version),
            None => Err(
                AnkiError::DbError {
                    info: String::from_str("AnkiMath version info not found in database"),
                    kind: DbErrorKind::MissingEntity,
                },
            ),
        }
    }

    /// Makes the record of the extended schema, at its first version. Fails,
    /// and changes nothing, where the record exists.
    pub fn run_schema_ankimath_version_upgrade(&mut self) -> (result: Result<(), AnkiError>)
        ensures
            result is Ok <==> old(self).ankimath_version is None,
            match result {
                Ok(_) => *final(self) == (SqliteStorage {
                    ankimath_version: Some(ANKIMATH_FIRST_VERSION),
                    ..*old(self)
                }),
                Err(err) => err is DbError && *final(self) == *old(self),
            },
    {
        match self.ankimath_version {
            None => {
                self.ankimath_version = Some(ANKIMATH_FIRST_VERSION);
                Ok(())
            },
            Some(_) => Err(
                AnkiError::DbError {
                    info: String::from_str("table ankimath_info already exists"),
                    kind: DbErrorKind::Other,
                },
            ),
        }
    }

    /// Brings the storage to the version of the extended schema in which
    /// review-log entries carry feedback and tags. Fails, and changes
    /// nothing, where the storage has no record of the extended schema.
    pub fn run_schema_202301121442_upgrade(&mut self) -> (result: Result<(), AnkiError>)
        ensures
            result is Ok <==> old(self).ankimath_version is Some,
            match result {
                Ok(_) => *final(self) == (SqliteStorage {
                    ankimath_version: Some(ANKIMATH_VERSION_202301121442),
                    ..*old(self)
                }),
                Err(err) => err matches AnkiError::DbError { kind, .. } && kind
                    == DbErrorKind::MissingEntity && *final(self) == *old(self),
            },
    {
        match self.ankimath_version {
            Some(_) => {
                self.ankimath_version = Some(ANKIMATH_VERSION_202301121442);
                Ok(())
            },
            None => Err(
                AnkiError::DbError {
                    info: String::from_str("no such table: ankimath_info"),
                    kind: DbErrorKind::MissingEntity,
                },
            ),
        }
    }
}

} // verus!
