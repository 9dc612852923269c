//! The text of the two stores after an account is added or removed.
//!
//! Adding writes one new line behind the lines of each store, and first ends
//! the last of them with a line feed where none stands there, so that the new
//! line is a line of its own. Removing writes each store anew, line by line,
//! without the lines whose first field is the name of the account, and ends
//! every line that stays with a line feed.

use vstd::prelude::*;
use vstd::string::StringExecFns;
use crate::decimal::{decimal, format_decimal};
use crate::lines::{ended, ends_its_lines, join_lines, lines, lines_of};
use crate::split::{join, lemma_split_concat, lemma_split_whole, rows, split};
use crate::text::{chars_of, string_of};

verus! {

/// The identity given to the first account of an empty database.
pub const FIRST_UID: u128 = 1000;

/// The identity of the next account: the number of lines that the account
/// database holds, records or not, counted from `FIRST_UID`.
pub open spec fn uid_after(passwd: Seq<char>) -> nat {
    lines_of(passwd).len() + FIRST_UID as nat
}

/// The seven fields of the record of a new account: the password is kept in
/// the credential database, the group has the number of the account, the
/// description is empty, the home directory is named after the account and
/// lies in `home_dir`, and the login program is the default shell.
pub open spec fn account_fields(username: Seq<char>, uid: nat, home_dir: Seq<char>) -> Seq<
    Seq<char>,
> {
    seq![
        username,
        "x"@,
        decimal(uid),
        decimal(uid),
        Seq::<char>::empty(),
        home_dir + "/"@ + username,
        "/bin/bash"@,
    ]
}

/// The line of a new account in the account database.
pub open spec fn account_line(username: Seq<char>, uid: nat, home_dir: Seq<char>) -> Seq<char> {
    join(account_fields(username, uid, home_dir), ':')
}

/// The nine fields of the line of a new account in the credential database:
/// no usable password; the day of the last change, which is fixed at day
/// 18922 since 1970 and not taken from the clock; no minimum age; a maximum
/// age of 99999 days; a warning 7 days ahead; and three fields left empty.
pub open spec fn credential_fields(username: Seq<char>) -> Seq<Seq<char>> {
    seq![
        username,
        "*"@,
        "18922"@,
        "0"@,
        "99999"@,
        "7"@,
        Seq::<char>::empty(),
        Seq::<char>::empty(),
        Seq::<char>::empty(),
    ]
}

/// The line of a new account in the credential database.
pub open spec fn credential_line(username: Seq<char>) -> Seq<char> {
    join(credential_fields(username), ':')
}

/// The account database with the line of a new account behind its lines,
/// the last of which is ended first where it was not.
pub open spec fn with_account(passwd: Seq<char>, username: Seq<char>, home_dir: Seq<char>) -> Seq<
    char,
> {
    ended(passwd) + account_line(username, uid_after(passwd), home_dir).push('\n')
}

/// The credential database with the line of a new account behind its lines,
/// the last of which is ended first where it was not.
pub open spec fn with_credential(shadow: Seq<char>, username: Seq<char>) -> Seq<char> {
    ended(shadow) + credential_line(username).push('\n')
}

/// The first field of a line: what stands before its first colon, or the
/// whole line where it has none.
pub open spec fn key_of(line: Seq<char>) -> Seq<char> {
    split(line, ':')[0]
}

/// The test that keeps the lines of every account but the named one.
pub open spec fn keeps(username: Seq<char>) -> spec_fn(Seq<char>) -> bool {
    |line: Seq<char>| key_of(line) != username
}

/// A store without the lines of the named account.
pub open spec fn without_user(text: Seq<char>, username: Seq<char>) -> Seq<char> {
    join_lines(lines_of(text).filter(keeps(username)))
}

/// The first field of a line ends at its first colon.
pub proof fn lemma_key_of(line: Seq<char>, k: int)
    requires
        0 <= k <= line.len(),
        forall|j: int| 0 <= j < k ==> line[j] != ':',
        k < line.len() ==> line[k] == ':',
    ensures
        key_of(line) == line.take(k),
{
    let head = line.take(k);
    assert(!head.contains(':'));
    lemma_split_whole(head, ':');
    if k == line.len() {
        assert(head == line);
    } else {
        let rest = line.skip(k + 1);
        assert(head.push(':') + rest == line);
        lemma_split_concat(head, rest, ':');
    }
}

/// The identity that the next account gets.
pub fn next_uid(passwd: &str) -> (uid: u128)
    ensures
        uid == uid_after(passwd@),
{
    let chars = chars_of(passwd);
    let all = lines(chars.as_slice());
    assert(all@.len() == rows(all@).len());
    all.len() as u128 + FIRST_UID
}

/// The line that a new account gets in the account database, with the line
/// feed that ends it.
pub fn account_entry(username: &str, uid: u128, home_dir: &str) -> (entry: String)
    ensures
        entry@ == account_line(username@, uid as nat, home_dir@).push('\n'),
{
    let number = string_of(format_decimal(uid).as_slice());
    let mut entry = username.to_owned();
    entry.append(":x:");
    entry.append(number.as_str());
    entry.append(":");
    entry.append(number.as_str());
    entry.append("::");
    entry.append(home_dir);
    entry.append("/");
    entry.append(username);
    entry.append(":/bin/bash\n");
    proof {
        reveal_strlit(":x:");
        reveal_strlit("x");
        reveal_strlit(":");
        reveal_strlit("::");
        reveal_strlit("/");
        reveal_strlit(":/bin/bash\n");
        reveal_strlit("/bin/bash");
        reveal_with_fuel(join, 8);
        let fields = account_fields(username@, uid as nat, home_dir@);
        assert(fields.drop_last().drop_last().drop_last().drop_last().drop_last().drop_last()
            == seq![fields[0]]);
        assert(entry@ == join(fields, ':').push('\n'));
    }
    entry
}

/// The line that a new account gets in the credential database, with the line
/// feed that ends it.
pub fn credential_entry(username: &str) -> (entry: String)
    ensures
        entry@ == credential_line(username@).push('\n'),
{
    let mut entry = username.to_owned();
    entry.append(":*:18922:0:99999:7:::\n");
    proof {
        reveal_strlit(":*:18922:0:99999:7:::\n");
        reveal_strlit("*");
        reveal_strlit("18922");
        reveal_strlit("0");
        reveal_strlit("99999");
        reveal_strlit("7");
        reveal_with_fuel(join, 10);
        let fields = credential_fields(username@);
        assert(entry@ == join(fields, ':').push('\n'));
    }
    entry
}

/// A text with a line feed behind its last line, where none stands there.
pub fn end_last_line(text: &str) -> (whole: String)
    ensures
        whole@ == ended(text@),
{
    let chars = chars_of(text);
    let mut whole = text.to_owned();
    if !ends_its_lines(chars.as_slice()) {
        whole.append("\n");
        proof {
            reveal_strlit("\n");
            assert(text@ + "\n"@ == text@.push('\n'));
        }
    }
    whole
}

/// The account database after an account is added: its lines as they were,
/// each ended by a line feed, and behind them the line of the new account.
pub fn append_account(passwd: &str, username: &str, home_dir: &str) -> (after: String)
    ensures
        after@ == with_account(passwd@, username@, home_dir@),
{
    let uid = next_uid(passwd);
    let mut after = end_last_line(passwd);
    after.append(account_entry(username, uid, home_dir).as_str());
    after
}

/// The credential database after an account is added: its lines as they
/// were, each ended by a line feed, and behind them the line of the new
/// account.
pub fn append_credential(shadow: &str, username: &str) -> (after: String)
    ensures
        after@ == with_credential(shadow@, username@),
{
    let mut after = end_last_line(shadow);
    after.append(credential_entry(username).as_str());
    after
}

/// Whether the first field of a line is the given name.
pub fn has_key(line: &[char], name: &[char]) -> (named: bool)
    ensures
        named == (key_of(line@) == name@),
{
    let mut k: usize = 0;
    while k < line.len() && line[k] != ':'
        invariant
            k <= line.len(),
            forall|j: int| 0 <= j < k ==> line@[j] != ':',
        decreases line.len() - k,
    {
        k += 1;
    }
    proof {
        lemma_key_of(line@, k as int);
    }
    if k != name.len() {
        return false;
    }
    let mut i: usize = 0;
    while i < k
        invariant
            i <= k,
            k == name.len(),
            k <= line.len(),
            key_of(line@) == line@.take(k as int),
            forall|j: int| 0 <= j < i ==> line@[j] == name@[j],
        decreases k - i,
    {
        if line[i] != name[i] {
            assert(line@.take(k as int)[i as int] != name@[i as int]);
            return false;
        }
        i += 1;
    }
    assert(line@.take(k as int) == name@);
    true
}

/// One store without the lines of the named account. Every line that stays is
/// ended by a line feed, whatever ended it before.
pub fn remove_user(text: &str, username: &str) -> (after: String)
    ensures
        after@ == without_user(text@, username@),
{
    let chars = chars_of(text);
    let name = chars_of(username);
    let all = lines(chars.as_slice());
    let mut out: Vec<char> = Vec::new();
    let mut i: usize = 0;
    assert(all@.len() == rows(all@).len());
    assert(rows(all@).take(0) == Seq::<Seq<char>>::empty());
    proof {
        reveal(Seq::filter);
    }
    while i < all.len()
        invariant
            i <= all.len(),
            all@.len() == rows(all@).len(),
            name@ == username@,
            out@ == join_lines(rows(all@).take(i as int).filter(keeps(username@))),
        decreases all.len() - i,
    {
        let ghost seen = rows(all@).take(i as int);
        let ghost line = rows(all@)[i as int];
        proof {
            assert(rows(all@).take(i + 1) == seen.push(line));
            seen.lemma_filter_push(line, keeps(username@));
            assert(seen.filter(keeps(username@)).push(line).drop_last() == seen.filter(
                keeps(username@),
            ));
        }
        if !has_key(all[i].as_slice(), name.as_slice()) {
            let ghost kept = out@;
            let row = &all[i];
            let mut j: usize = 0;
            while j < row.len()
                invariant
                    j <= row.len(),
                    out@ == kept + row@.take(j as int),
                decreases row.len() - j,
            {
                out.push(row[j]);
                j += 1;
                assert(row@.take(j as int) == row@.take(j - 1).push(row@[j - 1]));
            }
            assert(row@.take(row.len() as int) == row@);
            out.push('\n');
            assert(out@ == kept + line.push('\n'));
        }
        i += 1;
    }
    assert(rows(all@).take(all.len() as int) == rows(all@));
    string_of(out.as_slice())
}

} // verus!
