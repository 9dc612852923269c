use userkit::account::parse_accounts;
use userkit::lines::ends_its_lines;
use userkit::store::{
    account_entry, append_account, append_credential, credential_entry, end_last_line, has_key,
    next_uid, remove_user, FIRST_UID,
};
use userkit::transaction::{apply, Mutation, Stores};

fn chars(s: &str) -> Vec<char> {
    s.chars().collect()
}

fn add_user(passwd: &str, shadow: &str, username: &str, home_dir: &str) -> Stores {
    let add = Mutation::Add { username: username.to_string(), home_dir: home_dir.to_string() };
    apply(&add, passwd, shadow)
}

fn delete_user(passwd: &str, shadow: &str, username: &str) -> Stores {
    apply(&Mutation::Delete { username: username.to_string() }, passwd, shadow)
}

const PASSWD: &str = "root:x:0:0::/root:/bin/bash\nbob:x:1000:1000::/home/bob:/bin/bash\n";
const SHADOW: &str = "root:*:18922:0:99999:7:::\nbob:*:18922:0:99999:7:::\n";

#[test]
fn next_uid_counts_the_lines_from_one_thousand() {
    assert_eq!(FIRST_UID, 1000);
    assert_eq!(next_uid(""), 1000);
    assert_eq!(next_uid("root:x:0:0::/root:/bin/bash\n"), 1001);
    assert_eq!(next_uid(PASSWD), 1002);
    assert_eq!(next_uid("a\nb\nc"), 1003);
}

#[test]
fn next_uid_counts_lines_that_are_no_records_too() {
    assert_eq!(next_uid("# comment\n\nroot:x:0:0::/root:/bin/bash\n"), 1003);
}

#[test]
fn next_uid_does_not_look_for_a_free_identity() {
    assert_eq!(next_uid("bob:x:1001:1001::/home/bob:/bin/bash\n"), 1001);
}

#[test]
fn account_entry_has_the_seven_fields_of_a_new_account() {
    assert_eq!(
        account_entry("alice", 1001, "/home"),
        "alice:x:1001:1001::/home/alice:/bin/bash\n"
    );
    assert_eq!(
        account_entry("testuser", 1000, "/home/"),
        "testuser:x:1000:1000::/home//testuser:/bin/bash\n"
    );
    assert_eq!(account_entry("", 0, ""), ":x:0:0::/:/bin/bash\n");
}

#[test]
fn credential_entry_has_the_fixed_ageing_policy() {
    assert_eq!(credential_entry("alice"), "alice:*:18922:0:99999:7:::\n");
    assert_eq!(credential_entry(""), ":*:18922:0:99999:7:::\n");
}

#[test]
fn add_user_appends_one_line_to_each_store() {
    assert_eq!(
        add_user(PASSWD, SHADOW, "alice", "/home"),
        Stores {
            passwd: format!("{}alice:x:1002:1002::/home/alice:/bin/bash\n", PASSWD),
            shadow: format!("{}alice:*:18922:0:99999:7:::\n", SHADOW),
        }
    );
}

#[test]
fn add_user_to_empty_stores_gives_the_first_identity() {
    assert_eq!(
        add_user("", "", "alice", "/home"),
        Stores {
            passwd: "alice:x:1000:1000::/home/alice:/bin/bash\n".to_string(),
            shadow: "alice:*:18922:0:99999:7:::\n".to_string(),
        }
    );
}

#[test]
fn add_user_then_listing_finds_the_new_record() {
    let before = parse_accounts(PASSWD);
    let after = parse_accounts(&add_user(PASSWD, SHADOW, "alice", "/home").passwd);
    assert_eq!(after.len(), before.len() + 1);
    assert_eq!(&after[..before.len()], &before[..]);
    let record = after.last().unwrap();
    assert_eq!(record.username, "alice");
    assert_eq!(record.uid, 2 + 1000);
    assert_eq!(record.uid, record.gid);
    assert_eq!(record.password, "x");
    assert_eq!(record.gecos, "");
    assert_eq!(record.home_dir, "/home/alice");
    assert_eq!(record.shell, "/bin/bash");
}

#[test]
fn ends_its_lines_tells_an_ended_text() {
    assert!(ends_its_lines(&chars("")));
    assert!(ends_its_lines(&chars("\n")));
    assert!(ends_its_lines(&chars("a\nb\n")));
    assert!(ends_its_lines(&chars("a\r\n")));
    assert!(!ends_its_lines(&chars("a")));
    assert!(!ends_its_lines(&chars("a\nb")));
    assert!(!ends_its_lines(&chars("a\n\r")));
}

#[test]
fn end_last_line_adds_a_line_feed_where_none_stands() {
    assert_eq!(end_last_line(""), "");
    assert_eq!(end_last_line("a\n"), "a\n");
    assert_eq!(end_last_line("a"), "a\n");
    assert_eq!(end_last_line("a\nb"), "a\nb\n");
    assert_eq!(end_last_line("a\r"), "a\r\n");
    assert_eq!(end_last_line("\n"), "\n");
}

#[test]
fn append_account_writes_the_new_line_behind_the_old_ones() {
    assert_eq!(
        append_account(PASSWD, "alice", "/home"),
        format!("{}alice:x:1002:1002::/home/alice:/bin/bash\n", PASSWD)
    );
    assert_eq!(append_account("", "alice", "/home"), "alice:x:1000:1000::/home/alice:/bin/bash\n");
}

#[test]
fn append_credential_writes_the_new_line_behind_the_old_ones() {
    assert_eq!(
        append_credential(SHADOW, "alice"),
        format!("{}alice:*:18922:0:99999:7:::\n", SHADOW)
    );
    assert_eq!(append_credential("", "alice"), "alice:*:18922:0:99999:7:::\n");
}

#[test]
fn add_user_ends_a_last_line_that_no_line_feed_ends() {
    let passwd = "root:x:0:0::/root:/bin/bash";
    let after = add_user(passwd, "root:*:18922:0:99999:7:::", "alice", "/home");
    assert_eq!(
        after.passwd,
        "root:x:0:0::/root:/bin/bash\nalice:x:1001:1001::/home/alice:/bin/bash\n"
    );
    assert_eq!(after.shadow, "root:*:18922:0:99999:7:::\nalice:*:18922:0:99999:7:::\n");
}

#[test]
fn add_user_to_a_store_without_final_line_feed_is_listed() {
    let passwd = "root:x:0:0::/root:/bin/bash";
    let before = parse_accounts(passwd);
    let after = parse_accounts(&add_user(passwd, "", "alice", "/home").passwd);
    assert_eq!(after.len(), 2);
    assert_eq!(&after[..1], &before[..]);
    assert_eq!(after[1].username, "alice");
    assert_eq!(after[1].uid, 1001);
    assert_eq!(after[1].gid, 1001);
}

#[test]
fn add_user_then_delete_user_restores_a_store_up_to_its_final_line_feed() {
    let passwd = "root:x:0:0::/root:/bin/bash";
    let shadow = "root:*:18922:0:99999:7:::";
    let added = add_user(passwd, shadow, "alice", "/home");
    let removed = delete_user(&added.passwd, &added.shadow, "alice");
    assert_eq!(removed.passwd, "root:x:0:0::/root:/bin/bash\n");
    assert_eq!(removed.shadow, "root:*:18922:0:99999:7:::\n");
    assert_eq!(removed.passwd.trim_end_matches('\n'), passwd);
    assert_eq!(removed.shadow.trim_end_matches('\n'), shadow);
}

#[test]
fn add_user_makes_a_carriage_return_at_the_end_part_of_the_line_ending() {
    let after = add_user("root:x:0:0::/root:/bin/bash\r", "", "alice", "/home");
    assert_eq!(
        after.passwd,
        "root:x:0:0::/root:/bin/bash\r\nalice:x:1001:1001::/home/alice:/bin/bash\n"
    );
    let listed = parse_accounts(&after.passwd);
    assert_eq!(listed[0].shell, "/bin/bash");
    assert_eq!(parse_accounts("root:x:0:0::/root:/bin/bash\r")[0].shell, "/bin/bash\r");
}

#[test]
fn has_key_compares_the_whole_first_field() {
    assert!(has_key(&chars("bob:x:1:1::/b:/s"), &chars("bob")));
    assert!(!has_key(&chars("bob2:x:1:1::/b:/s"), &chars("bob")));
    assert!(!has_key(&chars("bob:x:1:1::/b:/s"), &chars("bo")));
    assert!(!has_key(&chars("bob:x:1:1::/b:/s"), &chars("bob:x")));
    assert!(has_key(&chars("bob"), &chars("bob")));
    assert!(has_key(&chars(""), &chars("")));
    assert!(has_key(&chars(":x"), &chars("")));
    assert!(!has_key(&chars("x:"), &chars("")));
}

#[test]
fn remove_user_removes_that_line_and_only_that_line() {
    assert_eq!(remove_user("root:x:0:0::/root:/bin/bash\n", "root"), "");
    assert_eq!(remove_user(PASSWD, "root"), "bob:x:1000:1000::/home/bob:/bin/bash\n");
    assert_eq!(remove_user(PASSWD, "bob"), "root:x:0:0::/root:/bin/bash\n");
    assert_eq!(remove_user(PASSWD, "alice"), PASSWD);
}

#[test]
fn remove_user_matches_the_exact_name_and_no_longer_one() {
    let passwd = "bob:x:1000:1000::/home/bob:/bin/bash\nbob2:x:1001:1001::/home/bob2:/bin/bash\n";
    assert_eq!(remove_user(passwd, "bob"), "bob2:x:1001:1001::/home/bob2:/bin/bash\n");
    assert_eq!(remove_user(passwd, "bob2"), "bob:x:1000:1000::/home/bob:/bin/bash\n");
    assert_eq!(remove_user(passwd, "bo"), passwd);
}

#[test]
fn remove_user_removes_every_line_of_that_name() {
    assert_eq!(remove_user("a:1\nb:2\na:3\n", "a"), "b:2\n");
}

#[test]
fn remove_user_ends_every_line_that_stays_with_a_line_feed() {
    assert_eq!(remove_user("a:1\nb:2", "a"), "b:2\n");
    assert_eq!(remove_user("a:1\r\nb:2\r\n", "c"), "a:1\nb:2\n");
    assert_eq!(remove_user("a:1\nb:2", "c"), "a:1\nb:2\n");
    assert_eq!(remove_user("", "a"), "");
}

#[test]
fn remove_user_with_an_empty_name_removes_lines_without_a_name() {
    assert_eq!(remove_user("a:1\n\n:x\nb:2\n", ""), "a:1\nb:2\n");
}

#[test]
fn delete_user_changes_both_stores() {
    assert_eq!(
        delete_user(PASSWD, SHADOW, "bob"),
        Stores {
            passwd: "root:x:0:0::/root:/bin/bash\n".to_string(),
            shadow: "root:*:18922:0:99999:7:::\n".to_string(),
        }
    );
}

#[test]
fn add_user_then_delete_user_leaves_both_stores_as_they_were() {
    for (passwd, shadow) in [(PASSWD, SHADOW), ("", ""), ("# only a comment\n", "\n")] {
        let added = add_user(passwd, shadow, "alice", "/home");
        let removed = delete_user(&added.passwd, &added.shadow, "alice");
        assert_eq!(removed.passwd, passwd);
        assert_eq!(removed.shadow, shadow);
    }
}

#[test]
fn add_user_then_delete_user_turns_line_endings_into_line_feeds() {
    let added = add_user("root:x:0:0::/root:/bin/bash\r\n", "root:*:::\r\n", "alice", "/home");
    let removed = delete_user(&added.passwd, &added.shadow, "alice");
    assert_eq!(removed.passwd, "root:x:0:0::/root:/bin/bash\n");
    assert_eq!(removed.shadow, "root:*:::\n");
}

#[test]
fn add_user_then_delete_user_removes_an_older_account_of_that_name_too() {
    let added = add_user(PASSWD, SHADOW, "bob", "/home");
    let removed = delete_user(&added.passwd, &added.shadow, "bob");
    assert_eq!(removed.passwd, "root:x:0:0::/root:/bin/bash\n");
    assert_eq!(removed.shadow, "root:*:18922:0:99999:7:::\n");
}
