//! One change of the two stores, step by step.
//!
//! The library decides and the caller acts: a stage says what has to be done
//! next, the caller does it and reports what came of it, and `step` gives
//! the stage that follows. The privilege of the caller is checked before
//! anything is read; both stores are read before either is written; the
//! account database is written first and the credential database only after
//! that write has succeeded. A write that has succeeded is not taken back
//! when a later one fails: the two files are not changed as one.
//!
//! A stage stands for what is still asked of the caller. Reading takes two
//! steps, with `AccountsRead` between them. The new texts need nothing from
//! outside, so they are at hand as soon as the second store is read
//! (`Mutated`), and the change is `Done` as soon as the second store is
//! written.

use vstd::prelude::*;
use crate::failure::{Failure, FailureSpec, StoreFile};
use crate::store::{
    append_account,
    append_credential,
    remove_user,
    with_account,
    with_credential,
    without_user,
};

verus! {

/// A change of the stores.
#[derive(Clone, Debug, PartialEq, Eq)]
pub enum Mutation {
    /// Add an account of this name, with its home below `home_dir`.
    Add { username: String, home_dir: String },
    /// Remove the account of this name.
    Delete { username: String },
}

/// A change with its texts as sequences of characters.
pub ghost enum MutationView {
    Add { username: Seq<char>, home_dir: Seq<char> },
    Delete { username: Seq<char> },
}

impl View for Mutation {
    type V = MutationView;

    open spec fn view(&self) -> MutationView {
        match self {
            Mutation::Add { username, home_dir } => MutationView::Add {
                username: username@,
                home_dir: home_dir@,
            },
            Mutation::Delete { username } => MutationView::Delete { username: username@ },
        }
    }
}

/// How far a change has come.
#[derive(Clone, Debug, PartialEq, Eq)]
pub enum Stage {
    /// Nothing has been done yet.
    Idle,
    /// The caller holds administrative privilege.
    PrivilegeChecked,
    /// The account database has been read.
    AccountsRead { passwd: String },
    /// Both stores have been read, and their new texts are at hand.
    Mutated { passwd: String, shadow: String },
    /// The account database has been written; `shadow` is still to write.
    AccountsPersisted { shadow: String },
    /// Both stores have been written.
    Done,
    /// The change has failed and goes no further.
    Failed { failure: Failure },
}

/// A stage with its texts as sequences of characters.
pub ghost enum StageView {
    Idle,
    PrivilegeChecked,
    AccountsRead { passwd: Seq<char> },
    Mutated { passwd: Seq<char>, shadow: Seq<char> },
    AccountsPersisted { shadow: Seq<char> },
    Done,
    Failed { failure: FailureSpec },
}

impl View for Stage {
    type V = StageView;

    open spec fn view(&self) -> StageView {
        match self {
            Stage::Idle => StageView::Idle,
            Stage::PrivilegeChecked => StageView::PrivilegeChecked,
            Stage::AccountsRead { passwd } => StageView::AccountsRead { passwd: passwd@ },
            Stage::Mutated { passwd, shadow } => StageView::Mutated {
                passwd: passwd@,
                shadow: shadow@,
            },
            Stage::AccountsPersisted { shadow } => StageView::AccountsPersisted {
                shadow: shadow@,
            },
            Stage::Done => StageView::Done,
            Stage::Failed { failure } => StageView::Failed { failure: failure@ },
        }
    }
}

/// What the caller reports back.
#[derive(Debug, PartialEq, Eq)]
pub enum Event {
    /// Whether the caller holds administrative privilege.
    Privilege { elevated: bool },
    /// The text of the file that was to be read, or why it could not be read.
    ReadDone { read: Result<String, String> },
    /// That the file was written, or why it could not be written.
    WriteDone { written: Result<(), String> },
}

/// A report with its texts as sequences of characters.
pub ghost enum EventView {
    Privilege { elevated: bool },
    ReadDone { read: Result<Seq<char>, Seq<char>> },
    WriteDone { written: Result<(), Seq<char>> },
}

impl View for Event {
    type V = EventView;

    open spec fn view(&self) -> EventView {
        match self {
            Event::Privilege { elevated } => EventView::Privilege { elevated: *elevated },
            Event::ReadDone { read } => EventView::ReadDone {
                read: match read {
                    Ok(text) => Ok(text@),
                    Err(cause) => Err(cause@),
                },
            },
            Event::WriteDone { written } => EventView::WriteDone {
                written: match written {
                    Ok(_) => Ok(()),
                    Err(cause) => Err(cause@),
                },
            },
        }
    }
}

/// What the caller has to do next.
#[derive(Debug, PartialEq, Eq)]
pub enum Action {
    /// Find out whether the caller holds administrative privilege.
    CheckPrivilege,
    /// Read the whole file.
    Read { file: StoreFile },
    /// Replace the file by `content`.
    Write { file: StoreFile, content: String },
    /// Nothing more: report the outcome.
    Finish { outcome: Result<(), Failure> },
}

/// An action with its texts as sequences of characters.
pub ghost enum ActionView {
    CheckPrivilege,
    Read { file: StoreFile },
    Write { file: StoreFile, content: Seq<char> },
    Finish { outcome: Result<(), FailureSpec> },
}

impl View for Action {
    type V = ActionView;

    open spec fn view(&self) -> ActionView {
        match self {
            Action::CheckPrivilege => ActionView::CheckPrivilege,
            Action::Read { file } => ActionView::Read { file: *file },
            Action::Write { file, content } => ActionView::Write {
                file: *file,
                content: content@,
            },
            Action::Finish { outcome } => ActionView::Finish {
                outcome: match outcome {
                    Ok(_) => Ok(()),
                    Err(failure) => Err(failure@),
                },
            },
        }
    }
}

/// The account database after the change.
pub open spec fn new_passwd(mutation: MutationView, passwd: Seq<char>) -> Seq<char> {
    match mutation {
        MutationView::Add { username, home_dir } => with_account(passwd, username, home_dir),
        MutationView::Delete { username } => without_user(passwd, username),
    }
}

/// The credential database after the change.
pub open spec fn new_shadow(mutation: MutationView, shadow: Seq<char>) -> Seq<char> {
    match mutation {
        MutationView::Add { username, home_dir } => with_credential(shadow, username),
        MutationView::Delete { username } => without_user(shadow, username),
    }
}

/// The failure of reading or writing a file.
pub open spec fn io_failure(cause: Seq<char>, file: StoreFile) -> StageView {
    StageView::Failed { failure: FailureSpec::IoFailure { cause, file } }
}

/// The stage that follows a stage on a report. A report that does not answer
/// what the stage asks for leaves the stage as it is; so does any report once
/// the change is done or has failed.
pub open spec fn next_stage(
    mutation: MutationView,
    stage: StageView,
    event: EventView,
) -> StageView {
    match (stage, event) {
        (StageView::Idle, EventView::Privilege { elevated }) => if elevated {
            StageView::PrivilegeChecked
        } else {
            StageView::Failed { failure: FailureSpec::PermissionDenied }
        },
        (StageView::PrivilegeChecked, EventView::ReadDone { read }) => match read {
            Ok(text) => StageView::AccountsRead { passwd: text },
            Err(cause) => io_failure(cause, StoreFile::Accounts),
        },
        (StageView::AccountsRead { passwd }, EventView::ReadDone { read }) => match read {
            Ok(text) => StageView::Mutated {
                passwd: new_passwd(mutation, passwd),
                shadow: new_shadow(mutation, text),
            },
            Err(cause) => io_failure(cause, StoreFile::Credentials),
        },
        (StageView::Mutated { passwd, shadow }, EventView::WriteDone { written }) => match written {
            Ok(_) => StageView::AccountsPersisted { shadow },
            Err(cause) => io_failure(cause, StoreFile::Accounts),
        },
        (
            StageView::AccountsPersisted { shadow },
            EventView::WriteDone { written },
        ) => match written {
            Ok(_) => StageView::Done,
            Err(cause) => io_failure(cause, StoreFile::Credentials),
        },
        _ => stage,
    }
}

/// What a stage asks the caller to do.
pub open spec fn action_of(stage: StageView) -> ActionView {
    match stage {
        StageView::Idle => ActionView::CheckPrivilege,
        StageView::PrivilegeChecked => ActionView::Read { file: StoreFile::Accounts },
        StageView::AccountsRead { passwd } => ActionView::Read { file: StoreFile::Credentials },
        StageView::Mutated { passwd, shadow } => ActionView::Write {
            file: StoreFile::Accounts,
            content: passwd,
        },
        StageView::AccountsPersisted { shadow } => ActionView::Write {
            file: StoreFile::Credentials,
            content: shadow,
        },
        StageView::Done => ActionView::Finish { outcome: Ok(()) },
        StageView::Failed { failure } => ActionView::Finish { outcome: Err(failure) },
    }
}

impl Stage {
    /// The stage at which every change begins.
    pub fn start() -> (stage: Stage)
        ensures
            stage@ == StageView::Idle,
    {
        Stage::Idle
    }

    /// What the caller has to do at this stage.
    pub fn action(&self) -> (action: Action)
        ensures
            action@ == action_of(self@),
    {
        match self {
            Stage::Idle => Action::CheckPrivilege,
            Stage::PrivilegeChecked => Action::Read { file: StoreFile::Accounts },
            Stage::AccountsRead { passwd: _ } => Action::Read { file: StoreFile::Credentials },
            Stage::Mutated { passwd, shadow: _ } => Action::Write {
                file: StoreFile::Accounts,
                content: passwd.clone(),
            },
            Stage::AccountsPersisted { shadow } => Action::Write {
                file: StoreFile::Credentials,
                content: shadow.clone(),
            },
            Stage::Done => Action::Finish { outcome: Ok(()) },
            Stage::Failed { failure } => Action::Finish { outcome: Err(copy_of(failure)) },
        }
    }

    /// Whether the change is done or has failed.
    pub fn is_finished(&self) -> (finished: bool)
        ensures
            finished == (self@ is Done || self@ is Failed),
    {
        match self {
            Stage::Done => true,
            Stage::Failed { failure: _ } => true,
            _ => false,
        }
    }
}

/// A failure equal to the given one.
fn copy_of(failure: &Failure) -> (copy: Failure)
    ensures
        copy@ == failure@,
{
    match failure {
        Failure::PermissionDenied => Failure::PermissionDenied,
        Failure::IoFailure { cause, file } => Failure::IoFailure {
            cause: cause.clone(),
            file: *file,
        },
    }
}

/// The text of both stores.
#[derive(Clone, Debug, PartialEq, Eq)]
pub struct Stores {
    /// The text of the account database.
    pub passwd: String,
    /// The text of the credential database.
    pub shadow: String,
}

/// The texts of both stores after the change.
pub fn apply(mutation: &Mutation, passwd: &str, shadow: &str) -> (after: Stores)
    ensures
        after.passwd@ == new_passwd(mutation@, passwd@),
        after.shadow@ == new_shadow(mutation@, shadow@),
{
    match mutation {
        Mutation::Add { username, home_dir } => Stores {
            passwd: append_account(passwd, username.as_str(), home_dir.as_str()),
            shadow: append_credential(shadow, username.as_str()),
        },
        Mutation::Delete { username } => Stores {
            passwd: remove_user(passwd, username.as_str()),
            shadow: remove_user(shadow, username.as_str()),
        },
    }
}

/// Takes the change one step further: from the stage it is at and the report
/// of the caller to the stage that follows.
pub fn step(mutation: &Mutation, stage: Stage, event: Event) -> (next: Stage)
    ensures
        next@ == next_stage(mutation@, stage@, event@),
{
    match (stage, event) {
        (Stage::Idle, Event::Privilege { elevated }) => {
            if elevated {
                Stage::PrivilegeChecked
            } else {
                Stage::Failed { failure: Failure::PermissionDenied }
            }
        },
        (Stage::PrivilegeChecked, Event::ReadDone { read }) => match read {
            Ok(text) => Stage::AccountsRead { passwd: text },
            Err(cause) => Stage::Failed {
                failure: Failure::IoFailure { cause, file: StoreFile::Accounts },
            },
        },
        (Stage::AccountsRead { passwd }, Event::ReadDone { read }) => match read {
            Ok(text) => {
                let after = apply(mutation, passwd.as_str(), text.as_str());
                Stage::Mutated { passwd: after.passwd, shadow: after.shadow }
            },
            Err(cause) => Stage::Failed {
                failure: Failure::IoFailure { cause, file: StoreFile::Credentials },
            },
        },
        (Stage::Mutated { passwd, shadow }, Event::WriteDone { written }) => match written {
            Ok(_) => Stage::AccountsPersisted { shadow },
            Err(cause) => Stage::Failed {
                failure: Failure::IoFailure { cause, file: StoreFile::Accounts },
            },
        },
        (Stage::AccountsPersisted { shadow }, Event::WriteDone { written }) => match written {
            Ok(_) => Stage::Done,
            Err(cause) => Stage::Failed {
                failure: Failure::IoFailure { cause, file: StoreFile::Credentials },
            },
        },
        (stage, _) => stage,
    }
}

} // verus!
