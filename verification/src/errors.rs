//! Failure taxonomy of the domain rules.
//!
//! Every failure is recoverable and reported to the caller before any
//! persistence is attempted; none is process-fatal.

use vstd::prelude::*;

verus! {

/// A domain-rule failure: either a referenced entity was not found or a
/// validation rule rejected the request.
#[derive(Clone, Copy, Debug, PartialEq, Eq, Structural)]
pub enum DomainError {
    /// The referenced category does not exist.
    CategoryNotFound(i32),
    /// The referenced parent task does not exist.
    ParentTaskNotFound(i32),
    /// A folder in the ancestor chain does not exist.
    ParentFolderNotFound(i32),
    /// No task with the given id exists.
    TaskNotFound(i32),
    /// The category kind is not one of project, study or event.
    InvalidCategoryKind,
    /// An event task was requested without a due date.
    MissingDueDate,
    /// A file was given neither content nor a link.
    MissingFileContent,
    /// A rootless folder must be named "root".
    InvalidRootName,
    /// A rootless folder already exists.
    RootAlreadyExists,
    /// A sibling folder with a case-insensitively equal name exists.
    DuplicateSiblingName,
    /// A category with a case-insensitively equal name exists.
    DuplicateCategoryName,
    /// The requested status change is not in the lifecycle whitelist.
    InvalidStatusTransition,
}

/// A failure of the database-registry configuration rules.
#[derive(Clone, Copy, Debug, PartialEq, Eq, Structural)]
pub enum ConfigError {
    /// No registered database carries the given name.
    DatabaseNotFound,
    /// A database with the given name is already registered.
    DatabaseExists,
}

} // verus!
