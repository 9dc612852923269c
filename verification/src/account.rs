//! Reading the account database: from its text to the records it holds.

use vstd::prelude::*;
use crate::decimal::{id_of, parse_id};
use crate::failure::{Failure, FailureSpec, MalformedInput, StoreFile};
use crate::lines::{lines, lines_of};
use crate::split::{rows, split, split_chars};
use crate::text::{chars_of, string_of};

verus! {

/// One record of the account database.
#[derive(Clone, Debug, PartialEq, Eq)]
pub struct User {
    /// The name of the account, the key of the record.
    pub username: String,
    /// The second field, kept as it stands and never interpreted.
    pub password: String,
    /// The numeric identity of the account.
    pub uid: u32,
    /// The identity of its primary group.
    pub gid: u32,
    /// Free descriptive text; may be empty.
    pub gecos: String,
    /// The home directory.
    pub home_dir: String,
    /// The login program.
    pub shell: String,
}

/// A record with its texts as sequences of characters.
pub ghost struct UserView {
    pub username: Seq<char>,
    pub password: Seq<char>,
    pub uid: u32,
    pub gid: u32,
    pub gecos: Seq<char>,
    pub home_dir: Seq<char>,
    pub shell: Seq<char>,
}

impl View for User {
    type V = UserView;

    open spec fn view(&self) -> UserView {
        UserView {
            username: self.username@,
            password: self.password@,
            uid: self.uid,
            gid: self.gid,
            gecos: self.gecos@,
            home_dir: self.home_dir@,
            shell: self.shell@,
        }
    }
}

impl DeepView for User {
    type V = UserView;

    open spec fn deep_view(&self) -> UserView {
        self@
    }
}

/// The number of fields below which a line is no record.
pub const RECORD_FIELDS: usize = 7;

/// Whether a line is a record: it has at least seven fields between colons.
pub open spec fn is_record(line: Seq<char>) -> bool {
    split(line, ':').len() >= RECORD_FIELDS
}

/// The record that seven or more fields stand for, each field at its place;
/// fields after the seventh are left aside.
pub open spec fn record_from(fields: Seq<Seq<char>>) -> UserView
    recommends
        fields.len() >= RECORD_FIELDS,
{
    UserView {
        username: fields[0],
        password: fields[1],
        uid: id_of(fields[2]),
        gid: id_of(fields[3]),
        gecos: fields[4],
        home_dir: fields[5],
        shell: fields[6],
    }
}

/// The record that a line holds, if it is one.
pub open spec fn record_of(line: Seq<char>) -> Option<UserView> {
    if is_record(line) {
        Some(record_from(split(line, ':')))
    } else {
        None
    }
}

/// The records that the given lines hold, in the order of the lines; lines
/// that are no records are passed over.
pub open spec fn records_in(lines: Seq<Seq<char>>) -> Seq<UserView> {
    lines.filter_map(|line: Seq<char>| record_of(line))
}

/// The records that the text of an account database holds.
pub open spec fn accounts_of(text: Seq<char>) -> Seq<UserView> {
    records_in(lines_of(text))
}

/// What one more line adds to the records of the lines before it.
pub proof fn lemma_records_push(lines: Seq<Seq<char>>, line: Seq<char>)
    ensures
        records_in(lines.push(line)) == match record_of(line) {
            Some(record) => records_in(lines).push(record),
            None => records_in(lines),
        },
{
    assert(lines.push(line).drop_last() == lines);
    match record_of(line) {
        Some(record) => {
            assert(records_in(lines) + seq![record] == records_in(lines).push(record));
        },
        None => {},
    }
}

/// Whether every one of the lines is a record.
pub open spec fn all_records(lines: Seq<Seq<char>>) -> bool {
    forall|i: int| 0 <= i < lines.len() ==> is_record(#[trigger] lines[i])
}

/// The test that tells the records among the lines.
pub open spec fn record_test() -> spec_fn(Seq<char>) -> bool {
    |line: Seq<char>| is_record(line)
}

/// Where all lines are records, the listing has as many records as there are
/// lines, and the record at each place is read from the line at that place,
/// each field at its place.
pub proof fn lemma_records_of_well_formed(lines: Seq<Seq<char>>)
    requires
        all_records(lines),
    ensures
        records_in(lines).len() == lines.len(),
        forall|i: int|
            0 <= i < lines.len() ==> #[trigger] records_in(lines)[i] == record_from(
                split(lines[i], ':'),
            ),
    decreases lines.len(),
{
    if lines.len() > 0 {
        let front = lines.drop_last();
        assert forall|i: int| 0 <= i < front.len() implies is_record(#[trigger] front[i]) by {
            assert(front[i] == lines[i]);
        }
        lemma_records_of_well_formed(front);
        lemma_records_push(front, lines.last());
        assert(front.push(lines.last()) == lines);
        assert(is_record(lines[lines.len() - 1]));
        assert forall|i: int| 0 <= i < lines.len() implies #[trigger] records_in(lines)[i]
            == record_from(split(lines[i], ':')) by {
            if i < front.len() {
                assert(records_in(lines)[i] == records_in(front)[i]);
                assert(front[i] == lines[i]);
            }
        }
    }
}

/// Lines with fewer than seven fields are left out and change nothing else:
/// the listing of some lines is the listing of the records among them, and
/// has as many records as there are records among the lines.
pub proof fn lemma_records_skip_malformed(lines: Seq<Seq<char>>)
    ensures
        records_in(lines) == records_in(lines.filter(record_test())),
        records_in(lines).len() == lines.filter(record_test()).len(),
    decreases lines.len(),
{
    reveal(Seq::filter);
    if lines.len() > 0 {
        let front = lines.drop_last();
        let line = lines.last();
        lemma_records_skip_malformed(front);
        assert(front.push(line) == lines);
        lemma_records_push(front, line);
        front.lemma_filter_push(line, record_test());
        if is_record(line) {
            lemma_records_push(front.filter(record_test()), line);
        }
    }
}

/// Every line that is a record gives one record of the listing, each field at
/// its place, and the records stand in the order of their lines: the listing
/// has as many records as there are records among the lines, and the record
/// at each place is read from the line at that place among them.
pub proof fn lemma_one_record_per_line(lines: Seq<Seq<char>>)
    ensures
        records_in(lines).len() == lines.filter(record_test()).len(),
        forall|i: int|
            0 <= i < lines.filter(record_test()).len() ==> #[trigger] records_in(lines)[i]
                == record_from(split(lines.filter(record_test())[i], ':')),
{
    let kept = lines.filter(record_test());
    lemma_records_skip_malformed(lines);
    assert forall|i: int| 0 <= i < kept.len() implies is_record(#[trigger] kept[i]) by {
        lines.lemma_filter_pred(record_test(), i);
    }
    lemma_records_of_well_formed(kept);
}

/// Reads one line of the account database: its record where it has seven
/// fields or more, and the number of its fields where it has fewer.
pub fn parse_record(line: &[char]) -> (record: Result<User, MalformedInput>)
    ensures
        match record {
            Ok(user) => record_of(line@) == Some(user@),
            Err(malformed) => {
                &&& record_of(line@) is None
                &&& malformed.fields == split(line@, ':').len()
            },
        },
{
    let fields = split_chars(line, ':');
    assert(fields@.len() == rows(fields@).len());
    if fields.len() < RECORD_FIELDS {
        return Err(MalformedInput { fields: fields.len() });
    }
    assert(forall|k: int| 0 <= k < 7 ==> fields@[k]@ == #[trigger] rows(fields@)[k]);
    let user = User {
        username: string_of(fields[0].as_slice()),
        password: string_of(fields[1].as_slice()),
        uid: parse_id(fields[2].as_slice()),
        gid: parse_id(fields[3].as_slice()),
        gecos: string_of(fields[4].as_slice()),
        home_dir: string_of(fields[5].as_slice()),
        shell: string_of(fields[6].as_slice()),
    };
    assert(user@ == record_from(split(line@, ':')));
    Ok(user)
}

/// Reads the records of an account database from its text. Lines with fewer
/// than seven fields are left out; a numeric field that is no number, or is
/// too large, reads as 0.
pub fn parse_accounts(text: &str) -> (users: Vec<User>)
    ensures
        users.deep_view() == accounts_of(text@),
{
    let chars = chars_of(text);
    let all = lines(chars.as_slice());
    let mut users: Vec<User> = Vec::new();
    let mut i: usize = 0;
    assert(all@.len() == rows(all@).len());
    assert(rows(all@).take(0) == Seq::<Seq<char>>::empty());
    while i < all.len()
        invariant
            i <= all.len(),
            all@.len() == rows(all@).len(),
            users.deep_view() == records_in(rows(all@).take(i as int)),
        decreases all.len() - i,
    {
        let ghost before = users.deep_view();
        let ghost line = rows(all@)[i as int];
        assert(rows(all@).take(i + 1) == rows(all@).take(i as int).push(line));
        proof {
            lemma_records_push(rows(all@).take(i as int), line);
        }
        match parse_record(all[i].as_slice()) {
            Ok(user) => {
                users.push(user);
                assert(users.deep_view() == before.push(user@));
            },
            Err(_) => {},
        }
        i += 1;
    }
    assert(rows(all@).take(all.len() as int) == rows(all@));
    users
}

/// What a listing of the accounts gives: the records, and the failure where
/// the account database could not be read.
#[derive(Clone, Debug, PartialEq, Eq)]
pub struct Listing {
    /// The records in the order of the file; empty where reading failed.
    pub users: Vec<User>,
    /// Why the account database could not be read, if it could not.
    pub failure: Option<Failure>,
}

/// Lists the accounts, given what reading the account database gave: its text,
/// or the cause for which it could not be read. A failed read does not fail
/// the listing: it gives no records and reports the cause.
pub fn list_users(read: Result<String, String>) -> (listing: Listing)
    ensures
        match read {
            Ok(text) => {
                &&& listing.users.deep_view() == accounts_of(text@)
                &&& listing.failure is None
            },
            Err(cause) => {
                &&& listing.users@.len() == 0
                &&& listing.failure.is_some()
                &&& listing.failure.unwrap()@ == (FailureSpec::IoFailure {
                    cause: cause@,
                    file: StoreFile::Accounts,
                })
            },
        },
{
    match read {
        Ok(text) => Listing { users: parse_accounts(text.as_str()), failure: None },
        Err(cause) => Listing {
            users: Vec::new(),
            failure: Some(Failure::IoFailure { cause, file: StoreFile::Accounts }),
        },
    }
}

/// The place of the first record with the given name, if there is one.
pub fn find_user(users: &[User], username: &str) -> (found: Option<usize>)
    ensures
        match found {
            Some(i) => {
                &&& i < users@.len()
                &&& users@[i as int].username@ == username@
                &&& forall|j: int| 0 <= j < i ==> users@[j].username@ != username@
            },
            None => forall|j: int| 0 <= j < users@.len() ==> users@[j].username@ != username@,
        },
{
    let name = username.to_owned();
    let mut i: usize = 0;
    while i < users.len()
        invariant
            i <= users.len(),
            name@ == username@,
            forall|j: int| 0 <= j < i ==> users@[j].username@ != username@,
        decreases users.len() - i,
    {
        if users[i].username == name {
            return Some(i);
        }
        i += 1;
    }
    None
}

} // verus!
