//! A whole change on the two files, held in memory.
//!
//! `Files` holds what a change meets: who owns the account database, what
//! each file holds, and why a file cannot be read or written, if it cannot.
//! `add_user` and `delete_user` take a change through all its stages on such
//! files, doing at each stage what the stage asks for and nothing else. What
//! comes of it is what `changed` says: the first thing that goes wrong ends
//! the change, and whatever was written before that stays written.

use vstd::prelude::*;
use crate::failure::{Failure, FailureSpec, StoreFile};
use crate::transaction::{
    new_passwd,
    new_shadow,
    step,
    Action,
    Event,
    Mutation,
    MutationView,
    Stage,
    StageView,
};

verus! {

/// One of the two files: its text, and why it cannot be read or written, if
/// it cannot.
#[derive(Clone, Debug, PartialEq, Eq)]
pub struct StoredFile {
    /// What the file holds.
    pub text: String,
    /// Why reading the file fails, if it does.
    pub read_error: Option<String>,
    /// Why writing the file fails, if it does.
    pub write_error: Option<String>,
}

/// A file with its texts as sequences of characters.
pub ghost struct StoredFileView {
    pub text: Seq<char>,
    pub read_error: Option<Seq<char>>,
    pub write_error: Option<Seq<char>>,
}

/// A text that may be missing, as a sequence of characters.
pub open spec fn text_of(text: Option<String>) -> Option<Seq<char>> {
    match text {
        Some(text) => Some(text@),
        None => None,
    }
}

impl View for StoredFile {
    type V = StoredFileView;

    open spec fn view(&self) -> StoredFileView {
        StoredFileView {
            text: self.text@,
            read_error: text_of(self.read_error),
            write_error: text_of(self.write_error),
        }
    }
}

/// The two files, and the owner of the account database.
#[derive(Clone, Debug, PartialEq, Eq)]
pub struct Files {
    /// The numeric identity of the owner of the account database, or nothing
    /// where it cannot be told.
    pub owner: Option<u32>,
    /// The account database.
    pub passwd: StoredFile,
    /// The credential database.
    pub shadow: StoredFile,
}

/// The two files with their texts as sequences of characters.
pub ghost struct FilesView {
    pub owner: Option<u32>,
    pub passwd: StoredFileView,
    pub shadow: StoredFileView,
}

impl View for Files {
    type V = FilesView;

    open spec fn view(&self) -> FilesView {
        FilesView { owner: self.owner, passwd: self.passwd@, shadow: self.shadow@ }
    }
}

/// What a change comes to: whether it succeeded, and the files after it.
pub ghost struct Outcome {
    pub result: Result<(), FailureSpec>,
    pub files: FilesView,
}

/// A change that fails and leaves the files as they are.
pub open spec fn fails(failure: FailureSpec, files: FilesView) -> Outcome {
    Outcome { result: Err(failure), files }
}

/// The failure of reading or writing a file.
pub open spec fn unusable(cause: Seq<char>, file: StoreFile) -> FailureSpec {
    FailureSpec::IoFailure { cause, file }
}

/// Whether the owner of the account database stands for administrative
/// privilege: it is known and is the superuser.
pub open spec fn privileged(owner: Option<u32>) -> bool {
    owner == Some(0u32)
}

/// What comes of a change when the account database is written and the
/// credential database is still to write.
pub open spec fn persisted(shadow: Seq<char>, files: FilesView) -> Outcome {
    match files.shadow.write_error {
        Some(cause) => fails(unusable(cause, StoreFile::Credentials), files),
        None => Outcome {
            result: Ok(()),
            files: FilesView {
                shadow: StoredFileView { text: shadow, ..files.shadow },
                ..files
            },
        },
    }
}

/// What comes of a change when the new texts of both stores are at hand.
pub open spec fn mutated(passwd: Seq<char>, shadow: Seq<char>, files: FilesView) -> Outcome {
    match files.passwd.write_error {
        Some(cause) => fails(unusable(cause, StoreFile::Accounts), files),
        None => persisted(
            shadow,
            FilesView { passwd: StoredFileView { text: passwd, ..files.passwd }, ..files },
        ),
    }
}

/// What comes of a change when the account database has been read.
pub open spec fn accounts_read(
    mutation: MutationView,
    passwd: Seq<char>,
    files: FilesView,
) -> Outcome {
    match files.shadow.read_error {
        Some(cause) => fails(unusable(cause, StoreFile::Credentials), files),
        None => mutated(
            new_passwd(mutation, passwd),
            new_shadow(mutation, files.shadow.text),
            files,
        ),
    }
}

/// What comes of a change when the privilege is granted.
pub open spec fn checked(mutation: MutationView, files: FilesView) -> Outcome {
    match files.passwd.read_error {
        Some(cause) => fails(unusable(cause, StoreFile::Accounts), files),
        None => accounts_read(mutation, files.passwd.text, files),
    }
}

/// What comes of a change on the given files. Without the privilege it fails
/// with `PermissionDenied` before anything is read. Else it fails with the
/// cause and the file of the first read or write that fails, in this order:
/// the account database is read, the credential database is read, the
/// account database is written, the credential database is written. A change
/// that fails leaves the files as they are, except that the account database
/// stays written where only the write of the credential database fails. A
/// change that succeeds leaves each store with its text after the change.
pub open spec fn changed(mutation: MutationView, files: FilesView) -> Outcome {
    if privileged(files.owner) {
        checked(mutation, files)
    } else {
        fails(FailureSpec::PermissionDenied, files)
    }
}

/// What comes of a change that has reached the given stage.
pub open spec fn finish(mutation: MutationView, stage: StageView, files: FilesView) -> Outcome {
    match stage {
        StageView::Idle => changed(mutation, files),
        StageView::PrivilegeChecked => checked(mutation, files),
        StageView::AccountsRead { passwd } => accounts_read(mutation, passwd, files),
        StageView::Mutated { passwd, shadow } => mutated(passwd, shadow, files),
        StageView::AccountsPersisted { shadow } => persisted(shadow, files),
        StageView::Done => Outcome { result: Ok(()), files },
        StageView::Failed { failure } => fails(failure, files),
    }
}

/// How many requests a change at the given stage can still make.
pub open spec fn steps_left(stage: StageView) -> nat {
    match stage {
        StageView::Idle => 5,
        StageView::PrivilegeChecked => 4,
        StageView::AccountsRead { passwd } => 3,
        StageView::Mutated { passwd, shadow } => 2,
        StageView::AccountsPersisted { shadow } => 1,
        StageView::Done => 0,
        StageView::Failed { failure } => 0,
    }
}

/// Whether a result is the given one, its failure taken by its view.
pub open spec fn is_result(result: Result<(), Failure>, expected: Result<(), FailureSpec>) -> bool {
    match result {
        Ok(_) => expected is Ok,
        Err(failure) => expected == Err::<(), FailureSpec>(failure@),
    }
}

/// Whether the owner of the account database stands for administrative
/// privilege: the superuser owns the file. An owner that cannot be told
/// stands for none.
pub fn holds_privilege(owner: Option<u32>) -> (elevated: bool)
    ensures
        elevated == (owner == Some(0u32)),
{
    match owner {
        Some(uid) => uid == 0,
        None => false,
    }
}

impl StoredFile {
    /// A file that holds the given text and can be read and written.
    pub fn holding(text: &str) -> (file: StoredFile)
        ensures
            file@ == (StoredFileView { text: text@, read_error: None, write_error: None }),
    {
        StoredFile { text: text.to_owned(), read_error: None, write_error: None }
    }

    /// Reads the file: its text, or why it cannot be read.
    pub fn read(&self) -> (read: Result<String, String>)
        ensures
            match read {
                Ok(text) => self@.read_error is None && text@ == self@.text,
                Err(cause) => self@.read_error == Some(cause@),
            },
    {
        match &self.read_error {
            Some(cause) => Err(cause.clone()),
            None => Ok(self.text.clone()),
        }
    }

    /// Writes the file: it holds the given text after that, unless it cannot
    /// be written, and then it stays as it is.
    pub fn write(&mut self, content: String) -> (written: Result<(), String>)
        ensures
            match written {
                Ok(_) => old(self)@.write_error is None && final(self)@ == (StoredFileView {
                    text: content@,
                    ..old(self)@
                }),
                Err(cause) => old(self)@.write_error == Some(cause@) && final(self)@ == old(
                    self,
                )@,
            },
    {
        match &self.write_error {
            Some(cause) => Err(cause.clone()),
            None => {
                self.text = content;
                Ok(())
            },
        }
    }
}

/// Takes a change through all its stages on the given files: at each stage it
/// does what the stage asks for, and reports what came of it.
pub fn perform(files: &mut Files, mutation: &Mutation) -> (result: Result<(), Failure>)
    ensures
        is_result(result, changed(mutation@, old(files)@).result),
        final(files)@ == changed(mutation@, old(files)@).files,
{
    let mut stage = Stage::start();
    loop
        invariant
            finish(mutation@, stage@, files@) == changed(mutation@, old(files)@),
        decreases steps_left(stage@),
    {
        let event = match stage.action() {
            Action::CheckPrivilege => Event::Privilege { elevated: holds_privilege(files.owner) },
            Action::Read { file } => match file {
                StoreFile::Accounts => Event::ReadDone { read: files.passwd.read() },
                StoreFile::Credentials => Event::ReadDone { read: files.shadow.read() },
            },
            Action::Write { file, content } => match file {
                StoreFile::Accounts => Event::WriteDone { written: files.passwd.write(content) },
                StoreFile::Credentials => Event::WriteDone {
                    written: files.shadow.write(content),
                },
            },
            Action::Finish { outcome } => {
                return outcome;
            },
        };
        stage = step(mutation, stage, event);
    }
}

/// Adds an account of the given name, with its home below `home_dir`, to the
/// given files.
pub fn add_user(files: &mut Files, username: &str, home_dir: &str) -> (result: Result<
    (),
    Failure,
>)
    ensures
        ({
            let add = MutationView::Add { username: username@, home_dir: home_dir@ };
            &&& is_result(result, changed(add, old(files)@).result)
            &&& final(files)@ == changed(add, old(files)@).files
        }),
{
    let add = Mutation::Add { username: username.to_owned(), home_dir: home_dir.to_owned() };
    perform(files, &add)
}

/// Removes the account of the given name from the given files.
pub fn delete_user(files: &mut Files, username: &str) -> (result: Result<(), Failure>)
    ensures
        ({
            let delete = MutationView::Delete { username: username@ };
            &&& is_result(result, changed(delete, old(files)@).result)
            &&& final(files)@ == changed(delete, old(files)@).files
        }),
{
    let delete = Mutation::Delete { username: username.to_owned() };
    perform(files, &delete)
}

} // verus!
