//! Whole runs of a change: what holds of every sequence of reports.

use vstd::prelude::*;
use crate::failure::{FailureSpec, StoreFile};
use crate::transaction::{
    action_of,
    io_failure,
    new_passwd,
    new_shadow,
    next_stage,
    ActionView,
    EventView,
    MutationView,
    StageView,
};

verus! {

/// The stage that a change has reached after the given reports, in order.
pub open spec fn run(mutation: MutationView, events: Seq<EventView>) -> StageView
    decreases events.len(),
{
    if events.len() == 0 {
        StageView::Idle
    } else {
        next_stage(mutation, run(mutation, events.drop_last()), events.last())
    }
}

/// Whether a stage asks for a file to be written.
pub open spec fn asks_write(stage: StageView) -> bool {
    action_of(stage) is Write
}

/// Whether a stage asks for the given file to be written.
pub open spec fn asks_write_of(stage: StageView, file: StoreFile) -> bool {
    action_of(stage) matches ActionView::Write { file: asked, content } && asked == file
}

/// Whether a report says that the caller holds administrative privilege.
pub open spec fn grants(event: EventView) -> bool {
    event == (EventView::Privilege { elevated: true })
}

/// Whether one of the reports says that the caller holds administrative
/// privilege.
pub open spec fn granted(events: Seq<EventView>) -> bool {
    exists|i: int| 0 <= i < events.len() && grants(#[trigger] events[i])
}

/// Whether a report says that a file was read.
pub open spec fn is_read(event: EventView) -> bool {
    event matches EventView::ReadDone { read } && read is Ok
}

/// Whether a report says that a file was written.
pub open spec fn is_written(event: EventView) -> bool {
    event matches EventView::WriteDone { written } && written is Ok
}

/// How many of the reports say that a file was read.
pub open spec fn reads(events: Seq<EventView>) -> nat
    decreases events.len(),
{
    if events.len() == 0 {
        0
    } else if is_read(events.last()) {
        reads(events.drop_last()) + 1
    } else {
        reads(events.drop_last())
    }
}

/// How many of the reports say that a file was written.
pub open spec fn writes(events: Seq<EventView>) -> nat
    decreases events.len(),
{
    if events.len() == 0 {
        0
    } else if is_written(events.last()) {
        writes(events.drop_last()) + 1
    } else {
        writes(events.drop_last())
    }
}

/// A change that is done or has failed stays as it is, whatever is reported
/// after that.
pub proof fn lemma_finished_stays(
    mutation: MutationView,
    events: Seq<EventView>,
    more: Seq<EventView>,
)
    requires
        run(mutation, events) is Done || run(mutation, events) is Failed,
    ensures
        run(mutation, events + more) == run(mutation, events),
    decreases more.len(),
{
    if more.len() == 0 {
        assert(events + more == events);
    } else {
        lemma_finished_stays(mutation, events, more.drop_last());
        assert((events + more).drop_last() == events + more.drop_last());
        assert((events + more).last() == more.last());
    }
}

/// Without administrative privilege a change fails and leaves both files as
/// they are: where no report grants the privilege, the change stays idle
/// until the first report on the privilege and has failed with
/// `PermissionDenied` from then on, and at no point asks for a file to be
/// written.
pub proof fn lemma_unprivileged(mutation: MutationView, events: Seq<EventView>)
    requires
        forall|i: int|
            0 <= i < events.len() && (#[trigger] events[i]) is Privilege ==> !grants(events[i]),
    ensures
        run(mutation, events) == StageView::Idle || run(mutation, events) == (StageView::Failed {
            failure: FailureSpec::PermissionDenied,
        }),
        (exists|i: int| 0 <= i < events.len() && (#[trigger] events[i]) is Privilege) ==> run(
            mutation,
            events,
        ) == (StageView::Failed { failure: FailureSpec::PermissionDenied }),
        forall|k: int|
            0 <= k <= events.len() ==> !asks_write(#[trigger] run(mutation, events.take(k))),
    decreases events.len(),
{
    if events.len() > 0 {
        let front = events.drop_last();
        assert forall|i: int|
            0 <= i < front.len() && (#[trigger] front[i]) is Privilege implies !grants(
            front[i],
        ) by {
            assert(front[i] == events[i]);
        }
        lemma_unprivileged(mutation, front);
        let last = events[events.len() - 1];
        assert(last is Privilege ==> !grants(last));
        if exists|i: int| 0 <= i < events.len() && (#[trigger] events[i]) is Privilege {
            let i = choose|i: int| 0 <= i < events.len() && (#[trigger] events[i]) is Privilege;
            if i < front.len() {
                assert(front[i] is Privilege);
            }
        }
        assert forall|k: int| 0 <= k <= events.len() implies !asks_write(
            #[trigger] run(mutation, events.take(k)),
        ) by {
            if k < events.len() {
                assert(events.take(k) == front.take(k));
            } else {
                assert(events.take(k) == events);
            }
        }
    } else {
        assert forall|k: int| 0 <= k <= events.len() implies !asks_write(
            #[trigger] run(mutation, events.take(k)),
        ) by {
            assert(events.take(k) == events);
        }
    }
}

/// Nothing is written before the privilege was granted and both stores were
/// read; the credential database is written only after a write of the account
/// database has succeeded; and a change is done only after two writes have
/// succeeded.
pub proof fn lemma_write_order(mutation: MutationView, events: Seq<EventView>)
    ensures
        ({
            let stage = run(mutation, events);
            &&& asks_write(stage) ==> granted(events) && reads(events) >= 2
            &&& asks_write_of(stage, StoreFile::Credentials) ==> writes(events) >= 1
            &&& stage is Done ==> granted(events) && reads(events) >= 2 && writes(events) >= 2
        }),
{
    lemma_progress(mutation, events);
}

/// How far a change can have come, by what was reported.
proof fn lemma_progress(mutation: MutationView, events: Seq<EventView>)
    ensures
        ({
            let stage = run(mutation, events);
            &&& stage is PrivilegeChecked ==> granted(events)
            &&& stage is AccountsRead ==> granted(events) && reads(events) >= 1
            &&& stage is Mutated ==> granted(events) && reads(events) >= 2
            &&& stage is AccountsPersisted ==> granted(events) && reads(events) >= 2 && writes(
                events,
            ) >= 1
            &&& stage is Done ==> granted(events) && reads(events) >= 2 && writes(events) >= 2
        }),
    decreases events.len(),
{
    if events.len() > 0 {
        let front = events.drop_last();
        lemma_progress(mutation, front);
        if granted(front) {
            let i = choose|i: int| 0 <= i < front.len() && grants(#[trigger] front[i]);
            assert(grants(events[i]));
        }
        if grants(events.last()) {
            assert(grants(events[events.len() - 1]));
        }
    }
}

/// The run in which everything succeeds: the privilege is granted, both
/// stores are read, and then the account database and after it the credential
/// database are to be written, each with its text after the change; when both
/// writes have succeeded the change is done.
pub proof fn lemma_run_succeeds(mutation: MutationView, passwd: Seq<char>, shadow: Seq<char>)
    ensures
        ({
            let events = seq![
                EventView::Privilege { elevated: true },
                EventView::ReadDone { read: Ok(passwd) },
                EventView::ReadDone { read: Ok(shadow) },
                EventView::WriteDone { written: Ok(()) },
                EventView::WriteDone { written: Ok(()) },
            ];
            &&& action_of(run(mutation, events.take(0))) == ActionView::CheckPrivilege
            &&& action_of(run(mutation, events.take(1))) == (ActionView::Read {
                file: StoreFile::Accounts,
            })
            &&& action_of(run(mutation, events.take(2))) == (ActionView::Read {
                file: StoreFile::Credentials,
            })
            &&& action_of(run(mutation, events.take(3))) == (ActionView::Write {
                file: StoreFile::Accounts,
                content: new_passwd(mutation, passwd),
            })
            &&& action_of(run(mutation, events.take(4))) == (ActionView::Write {
                file: StoreFile::Credentials,
                content: new_shadow(mutation, shadow),
            })
            &&& run(mutation, events) == StageView::Done
        }),
{
    let events = seq![
        EventView::Privilege { elevated: true },
        EventView::ReadDone { read: Ok(passwd) },
        EventView::ReadDone { read: Ok(shadow) },
        EventView::WriteDone { written: Ok(()) },
        EventView::WriteDone { written: Ok(()) },
    ];
    assert(events.take(5) == events);
    assert(events.take(5).drop_last() == events.take(4));
    assert(events.take(4).drop_last() == events.take(3));
    assert(events.take(3).drop_last() == events.take(2));
    assert(events.take(2).drop_last() == events.take(1));
    assert(events.take(1).drop_last() == events.take(0));
    assert(run(mutation, events.take(0)) == StageView::Idle);
    assert(run(mutation, events.take(1)) == StageView::PrivilegeChecked);
    assert(run(mutation, events.take(2)) == StageView::AccountsRead { passwd });
    assert(run(mutation, events.take(3)) == StageView::Mutated {
        passwd: new_passwd(mutation, passwd),
        shadow: new_shadow(mutation, shadow),
    });
    assert(run(mutation, events.take(4)) == StageView::AccountsPersisted {
        shadow: new_shadow(mutation, shadow),
    });
}

/// Where the account database cannot be read, the change fails with that
/// cause and neither file is written, whatever is reported after that.
pub proof fn lemma_unreadable_accounts(
    mutation: MutationView,
    cause: Seq<char>,
    more: Seq<EventView>,
)
    ensures
        ({
            let events = seq![
                EventView::Privilege { elevated: true },
                EventView::ReadDone { read: Err(cause) },
            ] + more;
            &&& run(mutation, events) == io_failure(cause, StoreFile::Accounts)
            &&& forall|k: int|
                0 <= k <= events.len() ==> !asks_write(#[trigger] run(mutation, events.take(k)))
        }),
{
    let first = seq![
        EventView::Privilege { elevated: true },
        EventView::ReadDone { read: Err(cause) },
    ];
    let events = first + more;
    assert(first.take(2) == first);
    assert(first.take(2).drop_last() == first.take(1));
    assert(first.take(1).drop_last() == first.take(0));
    assert(run(mutation, first.take(0)) == StageView::Idle);
    assert(run(mutation, first.take(1)) == StageView::PrivilegeChecked);
    assert(run(mutation, first) == io_failure(cause, StoreFile::Accounts));
    lemma_finished_stays(mutation, first, more);
    assert forall|k: int| 0 <= k <= events.len() implies !asks_write(
        #[trigger] run(mutation, events.take(k)),
    ) by {
        if k <= 2 {
            assert(events.take(k) == first.take(k));
        } else {
            assert(events.take(k) == first + more.take(k - 2));
            lemma_finished_stays(mutation, first, more.take(k - 2));
        }
    }
}

/// Where the account database cannot be written, the change fails with that
/// cause and the credential database is not written, whatever is reported
/// after that.
pub proof fn lemma_unwritable_accounts(
    mutation: MutationView,
    passwd: Seq<char>,
    shadow: Seq<char>,
    cause: Seq<char>,
    more: Seq<EventView>,
)
    ensures
        ({
            let events = seq![
                EventView::Privilege { elevated: true },
                EventView::ReadDone { read: Ok(passwd) },
                EventView::ReadDone { read: Ok(shadow) },
                EventView::WriteDone { written: Err(cause) },
            ] + more;
            &&& run(mutation, events) == io_failure(cause, StoreFile::Accounts)
            &&& forall|k: int| 0 <= k <= events.len() ==> !asks_write_of(
                #[trigger] run(mutation, events.take(k)),
                StoreFile::Credentials,
            )
        }),
{
    let first = seq![
        EventView::Privilege { elevated: true },
        EventView::ReadDone { read: Ok(passwd) },
        EventView::ReadDone { read: Ok(shadow) },
        EventView::WriteDone { written: Err(cause) },
    ];
    let events = first + more;
    assert(first.take(4) == first);
    assert(first.take(4).drop_last() == first.take(3));
    assert(first.take(3).drop_last() == first.take(2));
    assert(first.take(2).drop_last() == first.take(1));
    assert(first.take(1).drop_last() == first.take(0));
    assert(run(mutation, first.take(0)) == StageView::Idle);
    assert(run(mutation, first.take(1)) == StageView::PrivilegeChecked);
    assert(run(mutation, first.take(2)) == StageView::AccountsRead { passwd });
    assert(run(mutation, first.take(3)) is Mutated);
    assert(run(mutation, first) == io_failure(cause, StoreFile::Accounts));
    lemma_finished_stays(mutation, first, more);
    assert forall|k: int| 0 <= k <= events.len() implies !asks_write_of(
        #[trigger] run(mutation, events.take(k)),
        StoreFile::Credentials,
    ) by {
        if k <= 4 {
            assert(events.take(k) == first.take(k));
        } else {
            assert(events.take(k) == first + more.take(k - 4));
            lemma_finished_stays(mutation, first, more.take(k - 4));
        }
    }
}

} // verus!
