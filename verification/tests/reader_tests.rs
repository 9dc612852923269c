use userkit::account::{find_user, list_users, parse_accounts, parse_record, Listing, User};
use userkit::failure::{Failure, MalformedInput, StoreFile};

fn chars(s: &str) -> Vec<char> {
    s.chars().collect()
}

fn user(
    username: &str,
    password: &str,
    uid: u32,
    gid: u32,
    gecos: &str,
    home_dir: &str,
    shell: &str,
) -> User {
    User {
        username: username.to_string(),
        password: password.to_string(),
        uid,
        gid,
        gecos: gecos.to_string(),
        home_dir: home_dir.to_string(),
        shell: shell.to_string(),
    }
}

const SAMPLE: &str = "root:x:0:0:root:/root:/bin/bash\n\
daemon:x:1:1:daemon:/usr/sbin:/usr/sbin/nologin\n\
alice:x:1000:1001:Alice A,,,:/home/alice:/bin/zsh\n";

#[test]
fn parse_record_maps_the_fields_by_position() {
    assert_eq!(
        parse_record(&chars("alice:x:1000:1001:Alice A,,,:/home/alice:/bin/zsh")),
        Ok(user("alice", "x", 1000, 1001, "Alice A,,,", "/home/alice", "/bin/zsh"))
    );
}

#[test]
fn parse_record_keeps_the_password_field_as_it_stands() {
    let record = parse_record(&chars("bob:$6$salt$hash:5:6::/h:/s")).unwrap();
    assert_eq!(record.password, "$6$salt$hash");
}

#[test]
fn parse_record_refuses_lines_with_fewer_than_seven_fields() {
    assert_eq!(parse_record(&chars("")), Err(MalformedInput { fields: 1 }));
    assert_eq!(parse_record(&chars("root")), Err(MalformedInput { fields: 1 }));
    assert_eq!(
        parse_record(&chars("root:x:0:0:root:/root")),
        Err(MalformedInput { fields: 6 })
    );
    assert_eq!(parse_record(&chars("# a comment")), Err(MalformedInput { fields: 1 }));
    assert_eq!(parse_record(&chars(":::::")), Err(MalformedInput { fields: 6 }));
    assert_eq!(parse_record(&chars("a:b")), Err(MalformedInput { fields: 2 }));
}

#[test]
fn parse_record_accepts_seven_empty_fields() {
    assert_eq!(parse_record(&chars("::::::")), Ok(user("", "", 0, 0, "", "", "")));
}

#[test]
fn parse_record_leaves_fields_after_the_seventh_aside() {
    assert_eq!(
        parse_record(&chars("a:b:1:2:c:d:e:f:g")),
        Ok(user("a", "b", 1, 2, "c", "d", "e"))
    );
}

#[test]
fn parse_record_reads_a_malformed_number_as_zero() {
    let record = parse_record(&chars("eve:x:abc:-4:::")).unwrap();
    assert_eq!(record.uid, 0);
    assert_eq!(record.gid, 0);
    let record = parse_record(&chars("eve:x::4294967296:::")).unwrap();
    assert_eq!(record.uid, 0);
    assert_eq!(record.gid, 0);
    let record = parse_record(&chars("eve:x:4294967295:+12:::")).unwrap();
    assert_eq!(record.uid, 4294967295);
    assert_eq!(record.gid, 12);
}

#[test]
fn parse_accounts_gives_one_record_per_line_in_file_order() {
    assert_eq!(
        parse_accounts(SAMPLE),
        vec![
            user("root", "x", 0, 0, "root", "/root", "/bin/bash"),
            user("daemon", "x", 1, 1, "daemon", "/usr/sbin", "/usr/sbin/nologin"),
            user("alice", "x", 1000, 1001, "Alice A,,,", "/home/alice", "/bin/zsh"),
        ]
    );
}

#[test]
fn parse_accounts_of_an_empty_file_is_empty() {
    assert_eq!(parse_accounts(""), Vec::<User>::new());
    assert_eq!(parse_accounts("\n"), Vec::<User>::new());
}

#[test]
fn parse_accounts_omits_malformed_lines_and_keeps_the_rest() {
    let text = "# accounts\nroot:x:0:0::/root:/bin/bash\n\nbroken:line\n\
bob:x:7:8::/home/bob:/bin/sh\nlast:x:1";
    assert_eq!(
        parse_accounts(text),
        vec![
            user("root", "x", 0, 0, "", "/root", "/bin/bash"),
            user("bob", "x", 7, 8, "", "/home/bob", "/bin/sh"),
        ]
    );
}

#[test]
fn parse_accounts_reads_a_last_line_without_line_feed() {
    assert_eq!(
        parse_accounts("root:x:0:0::/root:/bin/bash"),
        vec![user("root", "x", 0, 0, "", "/root", "/bin/bash")]
    );
}

#[test]
fn parse_accounts_takes_carriage_returns_before_line_feeds_as_line_endings() {
    assert_eq!(
        parse_accounts("root:x:0:0::/root:/bin/bash\r\nbob:x:1:1::/b:/bin/sh\r\n"),
        vec![
            user("root", "x", 0, 0, "", "/root", "/bin/bash"),
            user("bob", "x", 1, 1, "", "/b", "/bin/sh"),
        ]
    );
}

#[test]
fn parse_accounts_agrees_with_splitting_by_the_standard_library() {
    let text = "a:b:1:2:c:d:e\nshort\nx:y:z:3:4:5:6:7\n::::::\n";
    let mut expected = Vec::new();
    for line in text.lines() {
        let fields: Vec<&str> = line.split(':').collect();
        if fields.len() >= 7 {
            expected.push(user(
                fields[0],
                fields[1],
                fields[2].parse().unwrap_or(0),
                fields[3].parse().unwrap_or(0),
                fields[4],
                fields[5],
                fields[6],
            ));
        }
    }
    assert_eq!(parse_accounts(text), expected);
}

#[test]
fn list_users_of_a_read_database_gives_its_records() {
    let listing = list_users(Ok(SAMPLE.to_string()));
    assert_eq!(listing.failure, None);
    assert_eq!(listing.users, parse_accounts(SAMPLE));
    assert_eq!(listing.users.len(), 3);
}

#[test]
fn list_users_of_an_unreadable_database_is_empty_and_reports_the_cause() {
    let listing = list_users(Err("Permission denied (os error 13)".to_string()));
    assert_eq!(
        listing,
        Listing {
            users: Vec::new(),
            failure: Some(Failure::IoFailure {
                cause: "Permission denied (os error 13)".to_string(),
                file: StoreFile::Accounts,
            }),
        }
    );
}

#[test]
fn list_users_does_not_fail_on_malformed_lines() {
    let listing = list_users(Ok("garbage\nroot:x:0:0::/root:/bin/bash\n:::\n".to_string()));
    assert_eq!(listing.failure, None);
    assert_eq!(listing.users, vec![user("root", "x", 0, 0, "", "/root", "/bin/bash")]);
}

#[test]
fn find_user_gives_the_place_of_the_first_record_of_that_name() {
    let users = parse_accounts(SAMPLE);
    assert_eq!(find_user(&users, "root"), Some(0));
    assert_eq!(find_user(&users, "alice"), Some(2));
    assert_eq!(find_user(&users, "nonexistentuser"), None);
    assert_eq!(find_user(&users, "roo"), None);
    assert_eq!(find_user(&users, "root2"), None);
    assert_eq!(find_user(&[], "root"), None);
}

#[test]
fn find_user_takes_the_first_of_two_records_with_one_name() {
    let users = parse_accounts("a:x:1:1::/a:/s\nb:x:2:2::/b:/s\na:x:3:3::/c:/s\n");
    assert_eq!(find_user(&users, "a"), Some(0));
    assert_eq!(find_user(&users, "b"), Some(1));
}

#[test]
fn store_files_lie_at_their_well_known_paths() {
    assert_eq!(StoreFile::Accounts.path(), "/etc/passwd");
    assert_eq!(StoreFile::Credentials.path(), "/etc/shadow");
}
