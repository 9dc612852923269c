//! What adding an account does to the listing, and what removing it again
//! leaves of the two stores.
//!
//! Both hold for a name that can be the first field of one line (it has no
//! colon and no line feed) and a home directory without a line feed. The
//! store may end in the middle of a line: adding ends that line first, so
//! that the store is compared with its text as `ended` gives it.

use vstd::prelude::*;
use crate::account::{
    accounts_of,
    all_records,
    lemma_records_of_well_formed,
    lemma_records_push,
    UserView,
};
use crate::decimal::{decimal, lemma_decimal_digits, lemma_id_of_decimal};
use crate::lines::{
    ended,
    join_lines,
    lemma_join_lines_of,
    lemma_lines_of_ended,
    lemma_lines_push,
    lines_of,
    open_cr,
    plain_endings,
    strip_cr,
};
use crate::split::{
    join,
    lemma_join_free,
    lemma_split_join,
    lemma_split_joined,
    lemma_split_len,
    lemma_split_whole,
    split,
};
use crate::store::{
    account_fields,
    account_line,
    credential_fields,
    credential_line,
    keeps,
    key_of,
    uid_after,
    with_account,
    with_credential,
    without_user,
};
use crate::files::{changed, privileged, FilesView};
use crate::transaction::{new_passwd, new_shadow, MutationView};

verus! {

/// Whether a name can be the first field of one line.
pub open spec fn is_key(name: Seq<char>) -> bool {
    !name.contains(':') && !name.contains('\n')
}

/// Whether a store holds no line of the named account.
pub open spec fn is_absent(text: Seq<char>, username: Seq<char>) -> bool {
    forall|i: int|
        0 <= i < lines_of(text).len() ==> key_of(#[trigger] lines_of(text)[i]) != username
}

/// The record that listing finds for a new account whose home directory has no
/// colon in its path.
pub open spec fn new_record(username: Seq<char>, uid: nat, home_dir: Seq<char>) -> UserView {
    UserView {
        username,
        password: "x"@,
        uid: uid as u32,
        gid: uid as u32,
        gecos: Seq::<char>::empty(),
        home_dir: home_dir + "/"@ + username,
        shell: "/bin/bash"@,
    }
}

/// The first fields of the line of a new account are read back as they were
/// written, and all seven where the home directory has no colon.
pub proof fn lemma_account_line_fields(username: Seq<char>, uid: nat, home_dir: Seq<char>)
    requires
        !username.contains(':'),
    ensures
        ({
            let fields = split(account_line(username, uid, home_dir), ':');
            &&& fields.len() >= 7
            &&& fields[0] == username
            &&& fields[1] == "x"@
            &&& fields[2] == decimal(uid)
            &&& fields[3] == decimal(uid)
            &&& fields[4] == Seq::<char>::empty()
            &&& !home_dir.contains(':') ==> fields == account_fields(username, uid, home_dir)
        }),
{
    let sep = ':';
    let all = account_fields(username, uid, home_dir);
    let six = all.drop_last();
    let five = six.drop_last();
    let four = five.drop_last();
    let three = four.drop_last();
    let two = three.drop_last();
    reveal_strlit("x");
    reveal_strlit("/");
    reveal_strlit("/bin/bash");
    lemma_decimal_digits(uid);
    lemma_split_joined(all, sep);
    lemma_split_joined(six, sep);
    lemma_split_joined(five, sep);
    lemma_split_joined(four, sep);
    lemma_split_joined(three, sep);
    lemma_split_joined(two, sep);
    lemma_split_whole(username, sep);
    lemma_split_whole("x"@, sep);
    lemma_split_whole(decimal(uid), sep);
    lemma_split_whole(Seq::<char>::empty(), sep);
    lemma_split_whole("/bin/bash"@, sep);
    let home = home_dir + "/"@ + username;
    lemma_split_len(home, sep);
    assert(split(join(five, sep), sep) == seq![
        username,
        "x"@,
        decimal(uid),
        decimal(uid),
        Seq::<char>::empty(),
    ]);
    if !home_dir.contains(':') {
        assert(!home.contains(sep));
        assert forall|i: int| 0 <= i < all.len() implies !(#[trigger] all[i]).contains(sep) by {}
        lemma_split_join(all, sep);
    }
}

/// The line of a new account is one line, and has no carriage return at its
/// end.
pub proof fn lemma_account_line_single(username: Seq<char>, uid: nat, home_dir: Seq<char>)
    requires
        !username.contains('\n'),
        !home_dir.contains('\n'),
    ensures
        !account_line(username, uid, home_dir).contains('\n'),
        strip_cr(account_line(username, uid, home_dir)) == account_line(username, uid, home_dir),
{
    let all = account_fields(username, uid, home_dir);
    let home = home_dir + "/"@ + username;
    reveal_strlit("x");
    reveal_strlit("/");
    reveal_strlit("/bin/bash");
    lemma_decimal_digits(uid);
    assert(!home.contains('\n'));
    assert forall|i: int| 0 <= i < all.len() implies !(#[trigger] all[i]).contains('\n') by {}
    lemma_join_free(all, ':', '\n');
}

/// The first field of the line of a new account in the credential database is
/// its name; the line is one line and has no carriage return at its end.
pub proof fn lemma_credential_line(username: Seq<char>)
    requires
        is_key(username),
    ensures
        key_of(credential_line(username)) == username,
        !credential_line(username).contains('\n'),
        strip_cr(credential_line(username)) == credential_line(username),
{
    let sep = ':';
    let all = credential_fields(username);
    reveal_strlit("*");
    reveal_strlit("18922");
    reveal_strlit("0");
    reveal_strlit("99999");
    reveal_strlit("7");
    assert forall|i: int| 0 <= i < all.len() implies !(#[trigger] all[i]).contains(sep) by {}
    lemma_split_join(all, sep);
    assert forall|i: int| 0 <= i < all.len() implies !(#[trigger] all[i]).contains('\n') by {}
    lemma_join_free(all, sep, '\n');
    assert(credential_line(username) == join(all.drop_last(), sep).push(sep)
        + Seq::<char>::empty());
}

/// A store that holds no line of an account is kept whole when the lines of
/// that account are taken out.
pub proof fn lemma_absent_kept(lines: Seq<Seq<char>>, username: Seq<char>)
    requires
        forall|i: int| 0 <= i < lines.len() ==> key_of(#[trigger] lines[i]) != username,
    ensures
        lines.filter(keeps(username)) == lines,
    decreases lines.len(),
{
    reveal(Seq::filter);
    if lines.len() > 0 {
        let front = lines.drop_last();
        assert forall|i: int| 0 <= i < front.len() implies key_of(#[trigger] front[i])
            != username by {}
        lemma_absent_kept(front, username);
    }
}

/// After an account is added, the listing is what the listing of the store
/// with its last line ended is, followed by the record of the new account.
/// That record has the name of the account, and its group is its identity.
/// Where the number of lines that the account database held before, counted
/// from 1000, fits in 32 bits, it is that identity; and where every one of
/// those lines was a record, it is the number of records that the listing
/// gave before, counted from 1000. Unless the store ended in a carriage
/// return that no line feed followed, the records before the new one are the
/// listing as it was before.
pub proof fn lemma_added_account_listed(
    passwd: Seq<char>,
    username: Seq<char>,
    home_dir: Seq<char>,
)
    requires
        is_key(username),
        !home_dir.contains('\n'),
    ensures
        ({
            let before = accounts_of(passwd);
            let after = accounts_of(with_account(passwd, username, home_dir));
            let fits = uid_after(passwd) <= u32::MAX;
            &&& after.len() == accounts_of(ended(passwd)).len() + 1
            &&& after.drop_last() == accounts_of(ended(passwd))
            &&& !open_cr(passwd) ==> after.drop_last() == before
            &&& after.last().username == username
            &&& after.last().gid == after.last().uid
            &&& fits ==> after.last().uid == lines_of(passwd).len() + 1000
            &&& fits && all_records(lines_of(passwd)) ==> after.last().uid == before.len() + 1000
            &&& fits && !home_dir.contains(':') ==> after.last() == new_record(
                username,
                uid_after(passwd),
                home_dir,
            )
        }),
{
    let uid = uid_after(passwd);
    if all_records(lines_of(passwd)) {
        lemma_records_of_well_formed(lines_of(passwd));
    }
    let line = account_line(username, uid, home_dir);
    lemma_lines_of_ended(passwd);
    lemma_account_line_single(username, uid, home_dir);
    lemma_account_line_fields(username, uid, home_dir);
    lemma_lines_push(ended(passwd), line);
    lemma_records_push(lines_of(ended(passwd)), line);
    if uid <= u32::MAX {
        lemma_id_of_decimal(uid);
    }
    let listed = accounts_of(ended(passwd));
    assert(accounts_of(with_account(passwd, username, home_dir)).drop_last() == listed);
}

/// Adding an account to the account database and removing it again leaves
/// the lines of the database with its last line ended, each followed by a
/// line feed. Where no carriage return stands before a line feed in it, that
/// is the database itself with its last line ended.
pub proof fn lemma_add_then_delete_account(
    passwd: Seq<char>,
    username: Seq<char>,
    home_dir: Seq<char>,
)
    requires
        is_key(username),
        !home_dir.contains('\n'),
        is_absent(ended(passwd), username),
    ensures
        ({
            let after = without_user(with_account(passwd, username, home_dir), username);
            &&& after == join_lines(lines_of(ended(passwd)))
            &&& !open_cr(passwd) ==> after == join_lines(lines_of(passwd))
            &&& plain_endings(ended(passwd)) ==> after == ended(passwd)
        }),
{
    let whole = ended(passwd);
    let line = account_line(username, uid_after(passwd), home_dir);
    lemma_lines_of_ended(passwd);
    lemma_account_line_single(username, uid_after(passwd), home_dir);
    lemma_account_line_fields(username, uid_after(passwd), home_dir);
    lemma_lines_push(whole, line);
    lemma_absent_kept(lines_of(whole), username);
    lines_of(whole).lemma_filter_push(line, keeps(username));
    if plain_endings(whole) {
        lemma_join_lines_of(whole);
    }
}

/// Adding an account to the credential database and removing it again leaves
/// the lines of the database with its last line ended, each followed by a
/// line feed. Where no carriage return stands before a line feed in it, that
/// is the database itself with its last line ended.
pub proof fn lemma_add_then_delete_credential(shadow: Seq<char>, username: Seq<char>)
    requires
        is_key(username),
        is_absent(ended(shadow), username),
    ensures
        ({
            let after = without_user(with_credential(shadow, username), username);
            &&& after == join_lines(lines_of(ended(shadow)))
            &&& !open_cr(shadow) ==> after == join_lines(lines_of(shadow))
            &&& plain_endings(ended(shadow)) ==> after == ended(shadow)
        }),
{
    let whole = ended(shadow);
    let line = credential_line(username);
    lemma_lines_of_ended(shadow);
    lemma_credential_line(username);
    lemma_lines_push(whole, line);
    lemma_absent_kept(lines_of(whole), username);
    lines_of(whole).lemma_filter_push(line, keeps(username));
    if plain_endings(whole) {
        lemma_join_lines_of(whole);
    }
}

/// An account that is added and then removed again leaves both stores as
/// they were up to the line feed behind the last line: what the removal
/// writes to each store is the lines that the store had, each followed by a
/// line feed, and, where no carriage return stands before a line feed, the
/// store itself with its last line ended.
pub proof fn lemma_add_then_delete(
    passwd: Seq<char>,
    shadow: Seq<char>,
    username: Seq<char>,
    home_dir: Seq<char>,
)
    requires
        is_key(username),
        !home_dir.contains('\n'),
        is_absent(ended(passwd), username),
        is_absent(ended(shadow), username),
    ensures
        ({
            let add = MutationView::Add { username, home_dir };
            let delete = MutationView::Delete { username };
            let passwd_after = new_passwd(delete, new_passwd(add, passwd));
            let shadow_after = new_shadow(delete, new_shadow(add, shadow));
            &&& passwd_after == join_lines(lines_of(ended(passwd)))
            &&& shadow_after == join_lines(lines_of(ended(shadow)))
            &&& !open_cr(passwd) ==> passwd_after == join_lines(lines_of(passwd))
            &&& !open_cr(shadow) ==> shadow_after == join_lines(lines_of(shadow))
            &&& plain_endings(ended(passwd)) ==> passwd_after == ended(passwd)
            &&& plain_endings(ended(shadow)) ==> shadow_after == ended(shadow)
        }),
{
    lemma_add_then_delete_account(passwd, username, home_dir);
    lemma_add_then_delete_credential(shadow, username);
}

/// Whether a change on the files meets nothing in its way: the privilege is
/// there, and both files can be read and written.
pub open spec fn is_usable(files: FilesView) -> bool {
    &&& privileged(files.owner)
    &&& files.passwd.read_error is None
    &&& files.passwd.write_error is None
    &&& files.shadow.read_error is None
    &&& files.shadow.write_error is None
}

/// On files that a change can use, adding an account succeeds, and listing
/// the account database after it gives the listing of the database with its
/// last line ended, followed by the record of the new account, as
/// `lemma_added_account_listed` says it.
pub proof fn lemma_add_user_then_list(files: FilesView, username: Seq<char>, home_dir: Seq<char>)
    requires
        is_usable(files),
        is_key(username),
        !home_dir.contains('\n'),
    ensures
        ({
            let passwd = files.passwd.text;
            let added = changed(MutationView::Add { username, home_dir }, files);
            let after = accounts_of(added.files.passwd.text);
            &&& added.result is Ok
            &&& after.len() == accounts_of(ended(passwd)).len() + 1
            &&& after.drop_last() == accounts_of(ended(passwd))
            &&& !open_cr(passwd) ==> after.drop_last() == accounts_of(passwd)
            &&& after.last().username == username
            &&& after.last().gid == after.last().uid
            &&& uid_after(passwd) <= u32::MAX ==> after.last().uid == lines_of(passwd).len()
                + 1000
        }),
{
    lemma_added_account_listed(files.passwd.text, username, home_dir);
}

/// On files that a change can use, and that hold no line of the account,
/// adding the account and removing it again both succeed and leave each
/// store as it was up to the line feed behind its last line, as
/// `lemma_add_then_delete` says it; the files stay usable.
pub proof fn lemma_add_user_then_delete_user(
    files: FilesView,
    username: Seq<char>,
    home_dir: Seq<char>,
)
    requires
        is_usable(files),
        is_key(username),
        !home_dir.contains('\n'),
        is_absent(ended(files.passwd.text), username),
        is_absent(ended(files.shadow.text), username),
    ensures
        ({
            let passwd = files.passwd.text;
            let shadow = files.shadow.text;
            let added = changed(MutationView::Add { username, home_dir }, files);
            let removed = changed(MutationView::Delete { username }, added.files);
            &&& added.result is Ok
            &&& removed.result is Ok
            &&& is_usable(removed.files)
            &&& removed.files.passwd.text == join_lines(lines_of(ended(passwd)))
            &&& removed.files.shadow.text == join_lines(lines_of(ended(shadow)))
            &&& !open_cr(passwd) ==> removed.files.passwd.text == join_lines(lines_of(passwd))
            &&& !open_cr(shadow) ==> removed.files.shadow.text == join_lines(lines_of(shadow))
            &&& plain_endings(ended(passwd)) ==> removed.files.passwd.text == ended(passwd)
            &&& plain_endings(ended(shadow)) ==> removed.files.shadow.text == ended(shadow)
        }),
{
    lemma_add_then_delete(files.passwd.text, files.shadow.text, username, home_dir);
}

} // verus!
