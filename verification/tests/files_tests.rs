use userkit::account::{list_users, parse_accounts};
use userkit::failure::{Failure, StoreFile};
use userkit::files::{add_user, delete_user, holds_privilege, perform, Files, StoredFile};
use userkit::transaction::Mutation;

const PASSWD: &str = "root:x:0:0::/root:/bin/bash\n";
const SHADOW: &str = "root:*:18922:0:99999:7:::\n";

fn files(owner: Option<u32>, passwd: &str, shadow: &str) -> Files {
    Files { owner, passwd: StoredFile::holding(passwd), shadow: StoredFile::holding(shadow) }
}

fn unreadable(text: &str, cause: &str) -> StoredFile {
    StoredFile { text: text.to_string(), read_error: Some(cause.to_string()), write_error: None }
}

fn unwritable(text: &str, cause: &str) -> StoredFile {
    StoredFile { text: text.to_string(), read_error: None, write_error: Some(cause.to_string()) }
}

fn io_failure(cause: &str, file: StoreFile) -> Failure {
    Failure::IoFailure { cause: cause.to_string(), file }
}

#[test]
fn the_superuser_as_owner_stands_for_privilege() {
    assert!(holds_privilege(Some(0)));
    assert!(!holds_privilege(Some(1)));
    assert!(!holds_privilege(Some(1000)));
    assert!(!holds_privilege(Some(u32::MAX)));
    assert!(!holds_privilege(None));
}

#[test]
fn a_stored_file_is_read_and_written() {
    let mut file = StoredFile::holding("a\n");
    assert_eq!(file.read(), Ok("a\n".to_string()));
    assert_eq!(file.write("b\n".to_string()), Ok(()));
    assert_eq!(file, StoredFile::holding("b\n"));
}

#[test]
fn a_stored_file_that_cannot_be_read_or_written_says_why() {
    let mut file = unreadable("a\n", "Permission denied");
    assert_eq!(file.read(), Err("Permission denied".to_string()));
    let mut locked = unwritable("a\n", "Read-only file system");
    assert_eq!(locked.read(), Ok("a\n".to_string()));
    assert_eq!(locked.write("b\n".to_string()), Err("Read-only file system".to_string()));
    assert_eq!(locked, unwritable("a\n", "Read-only file system"));
    assert_eq!(file.write("c".to_string()), Ok(()));
    assert_eq!(file.text, "c");
}

#[test]
fn add_user_adds_one_line_to_each_file() {
    let mut disk = files(Some(0), PASSWD, SHADOW);
    assert_eq!(add_user(&mut disk, "alice", "/home"), Ok(()));
    assert_eq!(
        disk,
        files(
            Some(0),
            "root:x:0:0::/root:/bin/bash\nalice:x:1001:1001::/home/alice:/bin/bash\n",
            "root:*:18922:0:99999:7:::\nalice:*:18922:0:99999:7:::\n",
        )
    );
}

#[test]
fn add_user_to_files_without_final_line_feed_adds_lines_of_their_own() {
    let mut disk = files(Some(0), "root:x:0:0::/root:/bin/bash", "root:*:18922:0:99999:7:::");
    assert_eq!(add_user(&mut disk, "alice", "/home"), Ok(()));
    assert_eq!(
        disk.passwd.text,
        "root:x:0:0::/root:/bin/bash\nalice:x:1001:1001::/home/alice:/bin/bash\n"
    );
    assert_eq!(disk.shadow.text, "root:*:18922:0:99999:7:::\nalice:*:18922:0:99999:7:::\n");
}

#[test]
fn add_user_then_list_users_finds_the_new_record_last() {
    let mut disk = files(Some(0), PASSWD, SHADOW);
    let before = list_users(disk.passwd.read()).users;
    assert_eq!(add_user(&mut disk, "alice", "/home"), Ok(()));
    let after = list_users(disk.passwd.read()).users;
    assert_eq!(after.len(), before.len() + 1);
    assert_eq!(&after[..before.len()], &before[..]);
    assert_eq!(after.iter().filter(|user| user.username == "alice").count(), 1);
    let record = after.last().unwrap();
    assert_eq!(record.username, "alice");
    assert_eq!(record.uid as usize, before.len() + 1000);
    assert_eq!(record.uid, record.gid);
}

#[test]
fn add_user_then_delete_user_leaves_both_files_as_they_were() {
    let mut disk = files(Some(0), PASSWD, SHADOW);
    assert_eq!(add_user(&mut disk, "alice", "/home"), Ok(()));
    assert_eq!(delete_user(&mut disk, "alice"), Ok(()));
    assert_eq!(disk, files(Some(0), PASSWD, SHADOW));
}

#[test]
fn add_user_then_delete_user_leaves_files_without_final_line_feed_up_to_it() {
    let passwd = "root:x:0:0::/root:/bin/bash";
    let shadow = "root:*:18922:0:99999:7:::";
    let mut disk = files(Some(0), passwd, shadow);
    assert_eq!(add_user(&mut disk, "alice", "/home"), Ok(()));
    assert_eq!(delete_user(&mut disk, "alice"), Ok(()));
    assert_eq!(disk.passwd.text.trim_end_matches('\n'), passwd);
    assert_eq!(disk.shadow.text.trim_end_matches('\n'), shadow);
    assert_eq!(disk.passwd.text, "root:x:0:0::/root:/bin/bash\n");
    assert_eq!(disk.shadow.text, "root:*:18922:0:99999:7:::\n");
}

#[test]
fn delete_user_removes_the_line_of_root_and_only_that_line() {
    let mut disk = files(
        Some(0),
        "root:x:0:0::/root:/bin/bash\nbob:x:1000:1000::/home/bob:/bin/bash\n",
        "root:*:::\nbob:*:::\n",
    );
    assert_eq!(delete_user(&mut disk, "root"), Ok(()));
    assert_eq!(disk.passwd.text, "bob:x:1000:1000::/home/bob:/bin/bash\n");
    assert_eq!(disk.shadow.text, "bob:*:::\n");
}

#[test]
fn delete_user_leaves_a_longer_name_alone() {
    let mut disk = files(
        Some(0),
        "bob:x:1000:1000::/home/bob:/bin/bash\nbob2:x:1001:1001::/home/bob2:/bin/bash\n",
        "bob:*:::\nbob2:*:::\n",
    );
    assert_eq!(delete_user(&mut disk, "bob"), Ok(()));
    assert_eq!(disk.passwd.text, "bob2:x:1001:1001::/home/bob2:/bin/bash\n");
    assert_eq!(disk.shadow.text, "bob2:*:::\n");
}

#[test]
fn without_privilege_add_user_is_denied_and_changes_nothing() {
    for owner in [None, Some(1), Some(1000)] {
        let mut disk = files(owner, PASSWD, SHADOW);
        assert_eq!(add_user(&mut disk, "alice", "/home"), Err(Failure::PermissionDenied));
        assert_eq!(disk, files(owner, PASSWD, SHADOW));
    }
}

#[test]
fn without_privilege_delete_user_is_denied_and_changes_nothing() {
    for owner in [None, Some(1), Some(1000)] {
        let passwd = "root:x:0:0::/root:/bin/bash\r\nalice:x:1:1::/a:/b";
        let mut disk = files(owner, passwd, "alice:*:::");
        assert_eq!(delete_user(&mut disk, "alice"), Err(Failure::PermissionDenied));
        assert_eq!(disk, files(owner, passwd, "alice:*:::"));
    }
}

#[test]
fn without_privilege_the_denial_comes_before_any_read() {
    let mut disk = Files {
        owner: Some(42),
        passwd: unreadable(PASSWD, "Permission denied"),
        shadow: unreadable(SHADOW, "Permission denied"),
    };
    assert_eq!(add_user(&mut disk, "alice", "/home"), Err(Failure::PermissionDenied));
    assert_eq!(delete_user(&mut disk, "root"), Err(Failure::PermissionDenied));
}

#[test]
fn an_unreadable_account_database_fails_both_changes_and_nothing_is_written() {
    let start = Files {
        owner: Some(0),
        passwd: unreadable(PASSWD, "Permission denied"),
        shadow: StoredFile::holding(SHADOW),
    };
    let failure = io_failure("Permission denied", StoreFile::Accounts);
    let mut disk = start.clone();
    assert_eq!(add_user(&mut disk, "alice", "/home"), Err(failure.clone()));
    assert_eq!(disk, start);
    assert_eq!(delete_user(&mut disk, "root"), Err(failure));
    assert_eq!(disk, start);
    let listing = list_users(disk.passwd.read());
    assert!(listing.users.is_empty());
    assert_eq!(listing.failure, Some(io_failure("Permission denied", StoreFile::Accounts)));
}

#[test]
fn add_user_on_an_unreadable_credential_database_writes_nothing() {
    let start = Files {
        owner: Some(0),
        passwd: StoredFile::holding(PASSWD),
        shadow: unreadable(SHADOW, "No such file or directory"),
    };
    let mut disk = start.clone();
    assert_eq!(
        add_user(&mut disk, "alice", "/home"),
        Err(io_failure("No such file or directory", StoreFile::Credentials))
    );
    assert_eq!(disk, start);
}

#[test]
fn an_unwritable_account_database_fails_the_change_and_nothing_is_written() {
    let start = Files {
        owner: Some(0),
        passwd: unwritable(PASSWD, "Read-only file system"),
        shadow: StoredFile::holding(SHADOW),
    };
    let mut disk = start.clone();
    assert_eq!(
        add_user(&mut disk, "alice", "/home"),
        Err(io_failure("Read-only file system", StoreFile::Accounts))
    );
    assert_eq!(disk, start);
}

#[test]
fn an_unwritable_credential_database_leaves_the_account_database_written() {
    let mut disk = Files {
        owner: Some(0),
        passwd: StoredFile::holding(PASSWD),
        shadow: unwritable(SHADOW, "No space left on device"),
    };
    assert_eq!(
        add_user(&mut disk, "alice", "/home"),
        Err(io_failure("No space left on device", StoreFile::Credentials))
    );
    assert_eq!(
        disk.passwd.text,
        "root:x:0:0::/root:/bin/bash\nalice:x:1001:1001::/home/alice:/bin/bash\n"
    );
    assert_eq!(disk.shadow, unwritable(SHADOW, "No space left on device"));
}

#[test]
fn the_first_failure_is_the_one_reported() {
    let mut disk = Files {
        owner: Some(0),
        passwd: StoredFile {
            text: PASSWD.to_string(),
            read_error: Some("first".to_string()),
            write_error: Some("third".to_string()),
        },
        shadow: StoredFile {
            text: SHADOW.to_string(),
            read_error: Some("second".to_string()),
            write_error: Some("fourth".to_string()),
        },
    };
    assert_eq!(delete_user(&mut disk, "root"), Err(io_failure("first", StoreFile::Accounts)));
    disk.passwd.read_error = None;
    assert_eq!(delete_user(&mut disk, "root"), Err(io_failure("second", StoreFile::Credentials)));
    disk.shadow.read_error = None;
    assert_eq!(delete_user(&mut disk, "root"), Err(io_failure("third", StoreFile::Accounts)));
    disk.passwd.write_error = None;
    assert_eq!(delete_user(&mut disk, "root"), Err(io_failure("fourth", StoreFile::Credentials)));
    assert_eq!(disk.passwd.text, "");
    assert_eq!(disk.shadow.text, SHADOW);
}

#[test]
fn perform_does_what_the_named_changes_do() {
    let mut one = files(Some(0), PASSWD, SHADOW);
    let mut other = one.clone();
    let add = Mutation::Add { username: "alice".to_string(), home_dir: "/home".to_string() };
    assert_eq!(perform(&mut one, &add), add_user(&mut other, "alice", "/home"));
    assert_eq!(one, other);
    let delete = Mutation::Delete { username: "root".to_string() };
    assert_eq!(perform(&mut one, &delete), delete_user(&mut other, "root"));
    assert_eq!(one, other);
    assert_eq!(parse_accounts(&one.passwd.text).len(), 1);
}
