//! The error every store operation reports.

use vstd::prelude::*;

verus! {

#[derive(Debug, PartialEq, Eq)]
pub enum MemcoreError {
    /// The caller's tenant does not own the record.
    Forbidden,
    NotFound(String),
    Conflict(String),
    ValidationError(String),
    StorageError(String),
    MigrationError(String),
}

impl MemcoreError {
    /// Stable machine-readable code of the error kind.
    pub fn code(&self) -> (r: &'static str)
        ensures
            r@ == error_code(*self),
    {
        proof {
            reveal_strlit("forbidden");
            reveal_strlit("not_found");
            reveal_strlit("conflict");
            reveal_strlit("validation_error");
            reveal_strlit("storage_error");
            reveal_strlit("migration_error");
        }
        match self {
            MemcoreError::Forbidden => "forbidden",
            MemcoreError::NotFound(_) => "not_found",
            MemcoreError::Conflict(_) => "conflict",
            MemcoreError::ValidationError(_) => "validation_error",
            MemcoreError::StorageError(_) => "storage_error",
            MemcoreError::MigrationError(_) => "migration_error",
        }
    }
}

pub open spec fn error_code(e: MemcoreError) -> Seq<char> {
    match e {
        MemcoreError::Forbidden => "forbidden"@,
        MemcoreError::NotFound(_) => "not_found"@,
        MemcoreError::Conflict(_) => "conflict"@,
        MemcoreError::ValidationError(_) => "validation_error"@,
        MemcoreError::StorageError(_) => "storage_error"@,
        MemcoreError::MigrationError(_) => "migration_error"@,
    }
}

} // verus!
