//! The two store files and the ways in which an operation on them fails.

use vstd::prelude::*;

verus! {

/// One of the two files that hold the accounts of the system.
#[derive(Clone, Copy, Debug, PartialEq, Eq, Structural)]
pub enum StoreFile {
    /// The account database, one record per line.
    Accounts,
    /// The credential database, one line per account.
    Credentials,
}

/// Where each store file lies.
pub open spec fn path_of(file: StoreFile) -> Seq<char> {
    match file {
        StoreFile::Accounts => "/etc/passwd"@,
        StoreFile::Credentials => "/etc/shadow"@,
    }
}

impl StoreFile {
    /// The path of the file.
    pub fn path(&self) -> (path: &'static str)
        ensures
            path@ == path_of(*self),
    {
        match self {
            StoreFile::Accounts => "/etc/passwd",
            StoreFile::Credentials => "/etc/shadow",
        }
    }
}

/// Why a line of the account database is no record: it has too few fields.
/// This fails no operation; listing passes such a line over.
#[derive(Clone, Copy, Debug, PartialEq, Eq)]
pub struct MalformedInput {
    /// The number of fields that the line has.
    pub fields: usize,
}

/// Why an operation on the stores failed.
#[derive(Clone, Debug, PartialEq, Eq)]
pub enum Failure {
    /// The caller does not hold administrative privilege; nothing was read or
    /// written.
    PermissionDenied,
    /// Reading or writing `file` failed for the reason given in `cause`.
    /// Files written before that stay as written.
    IoFailure { cause: String, file: StoreFile },
}

/// A failure with its cause as a sequence of characters: what the contracts
/// speak of.
pub ghost enum FailureSpec {
    PermissionDenied,
    IoFailure { cause: Seq<char>, file: StoreFile },
}

impl View for Failure {
    type V = FailureSpec;

    open spec fn view(&self) -> FailureSpec {
        match self {
            Failure::PermissionDenied => FailureSpec::PermissionDenied,
            Failure::IoFailure { cause, file } => FailureSpec::IoFailure {
                cause: cause@,
                file: *file,
            },
        }
    }
}

} // verus!
