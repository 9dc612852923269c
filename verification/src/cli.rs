//! The commands of the tool, as they stand after the command line was read,
//! and what the user commands ask of the account stores.

use vstd::prelude::*;
use crate::transaction::{Mutation, MutationView};

verus! {

/// A whole command line: one command of one domain.
#[derive(Clone, Debug, PartialEq, Eq)]
pub struct Cli {
    pub domain: Domains,
}

/// The domains of the tool, each with its command.
#[derive(Clone, Debug, PartialEq, Eq)]
pub enum Domains {
    /// User account management.
    User(UserCommands),
    /// Group management.
    Group(GroupCommands),
    /// Permission management.
    Perm(PermCommands),
    /// Role-based access control.
    Role(RoleCommands),
    /// Guest and temporary account management.
    Guest(GuestCommands),
    /// Tool configuration.
    Config(ConfigCommands),
    /// Shell access and user switching.
    Shell(ShellCommands),
}

/// Commands on user accounts.
#[derive(Clone, Debug, PartialEq, Eq)]
pub enum UserCommands {
    /// Create a new user.
    Add {
        username: String,
        home_dir: Option<String>,
        shell: Option<String>,
        uid: Option<u32>,
        gid: Option<u32>,
        gecos: Option<String>,
    },
    /// Delete a user, and the home directory too if asked.
    Remove { username: String, remove_home: bool },
    /// Change what is recorded of a user.
    Modify {
        username: String,
        home_dir: Option<String>,
        shell: Option<String>,
        uid: Option<u32>,
        gid: Option<u32>,
        gecos: Option<String>,
    },
    /// List users, in a format and through filters.
    List { format: ListFormat, uid_range: Option<String>, gid: Option<u32> },
    /// Show detailed user information.
    Info { username: String },
    /// Lock a user account.
    Lock { username: String },
    /// Unlock a user account.
    Unlock { username: String },
    /// Change a user's password.
    Passwd { username: String },
}

/// Commands on groups.
#[derive(Clone, Debug, PartialEq, Eq)]
pub enum GroupCommands {
    /// Create a new group.
    Add { groupname: String, gid: Option<u32> },
    /// Delete a group.
    Remove { groupname: String },
    /// Change what is recorded of a group.
    Modify { groupname: String, gid: Option<u32> },
    /// List groups.
    List { format: ListFormat },
    /// List the members of a group.
    Members { groupname: String },
    /// Add a user to a group.
    AddUser { groupname: String, username: String },
    /// Remove a user from a group.
    RemoveUser { groupname: String, username: String },
}

/// Commands on permissions.
#[derive(Clone, Debug, PartialEq, Eq)]
pub enum PermCommands {
    /// Set the permissions of a file or directory, such as "755".
    SetPermissions { target: String, permissions: String, recursive: bool },
    /// Get the permissions of a target.
    Get { target: String },
    /// Check whether a user has permissions on a target.
    Check { username: String, target: String },
    /// Enable or disable sudo access of a user.
    Sudo { username: String, action: SudoAction },
}

/// Commands on roles.
#[derive(Clone, Debug, PartialEq, Eq)]
pub enum RoleCommands {
    /// Create a new role.
    Create { rolename: String, description: Option<String> },
    /// Delete a role.
    Delete { rolename: String },
    /// Assign a role to a user.
    Assign { rolename: String, username: String },
    /// Revoke a role from a user.
    Revoke { rolename: String, username: String },
    /// List the roles.
    List { format: ListFormat },
    /// Show a role and its permissions.
    Info { rolename: String },
    /// Add a permission to a role.
    AddPerm { rolename: String, permission: String },
}

/// Commands on guest accounts.
#[derive(Clone, Debug, PartialEq, Eq)]
pub enum GuestCommands {
    /// Create a guest account, named or not, that expires after some days.
    Create { name: Option<String>, expire: Option<u32> },
    /// Remove a guest account.
    Remove { name: String },
    /// List all guest accounts.
    List,
    /// Show a guest account.
    Info { name: String },
    /// Start a temporary shell with a one-off guest account.
    Shell,
    /// Set after how many days a guest account expires.
    Expire { name: String, time: u32 },
}

/// Commands on the configuration of the tool.
#[derive(Clone, Debug, PartialEq, Eq)]
pub enum ConfigCommands {
    /// Set an option.
    SetOption { key: String, value: String },
    /// Get an option.
    Get { key: String },
    /// List all options.
    List,
    /// Reset the configuration to its defaults.
    Reset,
}

/// Commands that start a shell.
#[derive(Clone, Debug, PartialEq, Eq)]
pub enum ShellCommands {
    /// Switch to a profile and start a shell session.
    Shell { profile: String },
}

/// The formats of a listing.
#[derive(Clone, Copy, Debug, PartialEq, Eq)]
pub enum ListFormat {
    Table,
    Json,
    Csv,
}

/// What to do with the sudo access of a user.
#[derive(Clone, Copy, Debug, PartialEq, Eq)]
pub enum SudoAction {
    Enable,
    Disable,
}

/// Where the home of a new account lies when the command names no place.
pub open spec fn default_home() -> Seq<char> {
    "/home/"@
}

/// The change of the stores that a user command asks for: adding asks for an
/// account with its home below the given place, or below the default one;
/// removing asks for the account to be deleted; no other command changes the
/// stores.
pub open spec fn mutation_of(command: UserCommands) -> Option<MutationView> {
    match command {
        UserCommands::Add { username, home_dir, shell, uid, gid, gecos } => Some(
            MutationView::Add {
                username: username@,
                home_dir: match home_dir {
                    Some(place) => place@,
                    None => default_home(),
                },
            },
        ),
        UserCommands::Remove { username, remove_home } => Some(
            MutationView::Delete { username: username@ },
        ),
        _ => None,
    }
}

/// Whether a user command carries an option that is not acted upon: another
/// shell, identity, group or description for a new account, a filter on a
/// listing, or the removal of a home directory.
pub open spec fn has_unsupported(command: UserCommands) -> bool {
    match command {
        UserCommands::Add { username, home_dir, shell, uid, gid, gecos } => shell is Some
            || uid is Some || gid is Some || gecos is Some,
        UserCommands::List { format, uid_range, gid } => uid_range is Some || gid is Some,
        UserCommands::Remove { username, remove_home } => remove_home,
        _ => false,
    }
}

impl UserCommands {
    /// The change of the stores that the command asks for, if it asks for one.
    pub fn mutation(&self) -> (change: Option<Mutation>)
        ensures
            change.is_some() == mutation_of(*self).is_some(),
            change.is_some() ==> change.unwrap()@ == mutation_of(*self).unwrap(),
    {
        match self {
            UserCommands::Add { username, home_dir, shell: _, uid: _, gid: _, gecos: _ } => {
                let home = match home_dir {
                    Some(place) => place.clone(),
                    None => "/home/".to_owned(),
                };
                Some(Mutation::Add { username: username.clone(), home_dir: home })
            },
            UserCommands::Remove { username, remove_home: _ } => Some(
                Mutation::Delete { username: username.clone() },
            ),
            _ => None,
        }
    }

    /// Whether the command carries an option that is not acted upon.
    pub fn has_unsupported_options(&self) -> (unsupported: bool)
        ensures
            unsupported == has_unsupported(*self),
    {
        match self {
            UserCommands::Add { username: _, home_dir: _, shell, uid, gid, gecos } => {
                shell.is_some() || uid.is_some() || gid.is_some() || gecos.is_some()
            },
            UserCommands::List { format: _, uid_range, gid } => uid_range.is_some()
                || gid.is_some(),
            UserCommands::Remove { username: _, remove_home } => *remove_home,
            _ => false,
        }
    }
}

} // verus!
