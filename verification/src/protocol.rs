//! What a session asks for next, or ends with, given what it asked for and what it was
//! told: the operations as an observer sees them, who knows the requests, the answers
//! and the results, and nothing of the phases between.

use crate::credentials::{judged, AuthDotJson, AuthJsonError};
use crate::error::{Fault, FaultKind, StorageError};
use crate::laws::{after, after_one_more, answers, fresh, sessions_stay_well_formed, well_formed};
use crate::names::FileName;
use crate::path::{components_of, descriptor_route, same_paths_agree_in_every_component};
use crate::session::{
    ended, is_private_mode, is_trusted_directory, is_trusted_file, next, pending, private_mode,
    trusted_directory, trusted_file, Access, Event, Goal, LockReply, Metadata, OpenFlags, Outcome,
    Phase, Request, Session,
};
use vstd::prelude::*;

verus! {

/// Whether a session has ended with `error`.
pub open spec fn fails(session: Session, error: StorageError) -> bool {
    &&& ended(session) == Some(Err::<Outcome, StorageError>(error))
    &&& pending(session) is None
}

/// Whether a session has ended with `outcome`.
pub open spec fn succeeds(session: Session, outcome: Outcome) -> bool {
    &&& ended(session) == Some(Ok::<Outcome, StorageError>(outcome))
    &&& pending(session) is None
}

/// Whether a session is under way and asks for `request`.
pub open spec fn asks(session: Session, request: Request) -> bool {
    &&& ended(session) is None
    &&& pending(session) == Some(request)
}

/// To open the directory: for reading, as a directory, and through no symlink unless
/// `follow` says so.
pub open spec fn open_root(follow: bool) -> Request {
    Request::OpenRoot {
        flags: OpenFlags {
            access: Access::Read,
            directory: true,
            create: false,
            exclusive: false,
            no_follow: !follow,
            close_on_exec: true,
            non_blocking: false,
        },
        permissions: 0,
    }
}

/// To open the credentials for reading.
pub open spec fn open_credentials() -> Request {
    Request::OpenFile {
        name: FileName::Credentials,
        flags: OpenFlags {
            access: Access::Read,
            directory: false,
            create: false,
            exclusive: false,
            no_follow: true,
            close_on_exec: true,
            non_blocking: true,
        },
        permissions: 0o600,
    }
}

/// To open the lock file, and to create it if there is none.
pub open spec fn open_lock() -> Request {
    Request::OpenFile {
        name: FileName::Lock,
        flags: OpenFlags {
            access: Access::ReadWrite,
            directory: false,
            create: true,
            exclusive: false,
            no_follow: true,
            close_on_exec: true,
            non_blocking: true,
        },
        permissions: 0o600,
    }
}

/// To create a temporary file that is not there yet.
pub open spec fn create_temporary(suffix: u64) -> Request {
    Request::OpenFile {
        name: FileName::Temporary(suffix),
        flags: OpenFlags {
            access: Access::Write,
            directory: false,
            create: true,
            exclusive: true,
            no_follow: true,
            close_on_exec: true,
            non_blocking: true,
        },
        permissions: 0o600,
    }
}

/// What an operation asks for first inside a directory that it trusts. A writer asks
/// for the lock unless it holds it.
pub open spec fn first_inside(session: Session) -> Request {
    match session.goal {
        Goal::Load => open_credentials(),
        Goal::Transaction => open_lock(),
        Goal::Save => if session.leased {
            Request::Encode
        } else {
            open_lock()
        },
        Goal::Delete => if session.leased {
            Request::Unlink { name: FileName::Credentials }
        } else {
            open_lock()
        },
    }
}

/// Whether a session stands before the directory: it asks to open a descriptor route,
/// and to resolve any other absolute path. A relative path has failed.
pub open spec fn before_the_directory(session: Session) -> bool {
    let root = session.root@;
    if root.len() == 0 || root[0] != 47u8 {
        fails(session, StorageError::Route)
    } else if descriptor_route(root) {
        asks(session, open_root(true))
    } else {
        asks(session, Request::Canonicalize)
    }
}

/// Whether two paths have the same components, one by one.
pub open spec fn agree(left: Seq<u8>, right: Seq<u8>) -> bool {
    &&& components_of(left).len() == components_of(right).len()
    &&& forall|i: int|
        0 <= i < components_of(left).len() ==> #[trigger] components_of(left)[i]
            == components_of(right)[i]
}

/// A session has ended or asks for something, and not both. Once it has ended, and
/// where it is told what is no answer, it stays as it is.
pub proof fn only_answers_count(session: Session, event: Event)
    ensures
        ended(session) is Some <==> pending(session) is None,
        ended(session) is Some ==> next(session, event) == session,
        pending(session) matches Some(request) && !answers(request, event) ==> next(session, event)
            == session,
{
}

/// What a session is for, its directory and its suffix never change. It comes to hold
/// the lock by acquiring it, and in no other way, and keeps it.
pub proof fn sessions_keep_their_purpose(session: Session, event: Event)
    ensures
        next(session, event).goal == session.goal,
        next(session, event).root == session.root,
        next(session, event).suffix == session.suffix,
        next(session, event).leased <==> session.leased || (pending(session) == Some(
            Request::TryLock,
        ) && event == Event::Lock(LockReply::Acquired)),
{
}

/// Every session begins before the directory.
pub proof fn sessions_begin_before_the_directory(session: Session)
    requires
        fresh(session),
    ensures
        before_the_directory(session),
{
}

/// A path is opened, and then not through a symlink, exactly if what it resolves to
/// has the components of the path itself, every one of them.
pub proof fn paths_must_resolve_to_themselves(session: Session, resolved: Vec<u8>, fault: Fault)
    requires
        pending(session) == Some(Request::Canonicalize),
        !descriptor_route(session.root@),
    ensures
        ({
            let later = next(session, Event::Path(Ok(resolved)));
            if agree(resolved@, session.root@) {
                asks(later, open_root(false))
            } else {
                fails(later, StorageError::Route)
            }
        }),
        fails(next(session, Event::Path(Err(fault))), StorageError::System(fault)),
{
    same_paths_agree_in_every_component(resolved@, session.root@);
}

/// The directory is inspected once it is open.
pub proof fn opened_directories_are_inspected(session: Session, fault: Fault)
    requires
        pending(session) matches Some(Request::OpenRoot { .. }),
    ensures
        asks(next(session, Event::Completed(Ok(()))), Request::StatDirectory),
        fails(next(session, Event::Completed(Err(fault))), StorageError::System(fault)),
{
}

/// A directory is trusted exactly if the effective user owns it and neither the group
/// nor others have any permission.
pub proof fn trusted_directories_are_private(found: Metadata, euid: u32)
    ensures
        trusted_directory(found, euid) <==> found.uid == euid && found.mode % 64 == 0,
{
    let mode = found.mode;
    assert((mode & 0o077u32 == 0) <==> (mode % 64 == 0)) by (bit_vector);
}

/// A file is trusted exactly if it is a regular file, the effective user owns it,
/// whoever that is, neither the group nor others have any permission, and there is
/// no second link to it.
pub proof fn trusted_files_are_private(found: Metadata, euid: u32)
    ensures
        trusted_file(found, euid) <==> found.is_file && found.uid == euid && found.mode % 64 == 0
            && found.nlink == 1,
        private_mode(found.mode) <==> found.mode % 64 == 0,
{
    let mode = found.mode;
    assert((mode & 0o077u32 == 0) <==> (mode % 64 == 0)) by (bit_vector);
}

/// What becomes of a session that inspects the directory: it fails unless the effective
/// user owns the directory and nobody else has any permission. It goes on at once
/// without a lease, and with one inspects the directory of the lease.
pub proof fn directories_must_be_private(
    session: Session,
    found: Metadata,
    euid: u32,
    fault: Fault,
)
    requires
        well_formed(session),
        pending(session) == Some(Request::StatDirectory),
    ensures
        ({
            let later = next(session, Event::Stat { metadata: Ok(found), euid });
            if found.uid != euid || found.mode % 64 != 0 {
                fails(later, StorageError::DirectoryAuthority)
            } else if session.leased {
                asks(later, Request::StatLease)
            } else {
                asks(later, first_inside(session))
            }
        }),
        fails(
            next(session, Event::Stat { metadata: Err(fault), euid }),
            StorageError::System(fault),
        ),
{
    trusted_directories_are_private(found, euid);
}

/// A lease binds its directory: a session with one goes on exactly if the directory
/// that it opened and that of the lease are one and the same, by device and inode.
pub proof fn leases_bind_their_directory(
    session: Session,
    found: Metadata,
    euid: u32,
    held: Metadata,
    held_euid: u32,
    fault: Fault,
)
    requires
        well_formed(session),
        pending(session) == Some(Request::StatDirectory),
        session.leased,
        found.uid == euid,
        found.mode % 64 == 0,
    ensures
        ({
            let comparing = next(session, Event::Stat { metadata: Ok(found), euid });
            let later = next(comparing, Event::Stat { metadata: Ok(held), euid: held_euid });
            &&& if held.dev == found.dev && held.ino == found.ino {
                asks(later, first_inside(session))
            } else {
                fails(later, StorageError::DirectoryChanged)
            }
            &&& fails(
                next(comparing, Event::Stat { metadata: Err(fault), euid: held_euid }),
                StorageError::System(fault),
            )
        }),
{
    trusted_directories_are_private(found, euid);
}

/// A file is inspected once it is open. To load where there is no file is to load
/// nothing; any other failure to open or to inspect is passed on.
pub proof fn opened_files_are_inspected(session: Session, fault: Fault, euid: u32)
    requires
        pending(session) matches Some(Request::OpenFile { .. }) || pending(session) == Some(
            Request::StatFile,
        ),
    ensures
        pending(session) != Some(Request::StatFile) ==> {
            let later = next(session, Event::Completed(Err(fault)));
            &&& asks(next(session, Event::Completed(Ok(()))), Request::StatFile)
            &&& if session.goal == Goal::Load && fault.kind == FaultKind::NotFound {
                succeeds(later, Outcome::Loaded(None))
            } else {
                fails(later, StorageError::System(fault))
            }
        },
        pending(session) == Some(Request::StatFile) ==> {
            let later = next(session, Event::Stat { metadata: Err(fault), euid });
            if session.goal == Goal::Load && fault.kind == FaultKind::NotFound {
                succeeds(later, Outcome::Loaded(None))
            } else {
                fails(later, StorageError::System(fault))
            }
        },
{
}

/// What becomes of a session that inspects a file: it fails unless the file is a
/// regular one of the effective user's own, to which nobody else has any permission
/// and no second link leads. A load then reads a mebibyte and a byte at most, a save
/// under the lock writes, and every other operation is about to wait for the lock.
pub proof fn files_must_be_private(session: Session, found: Metadata, euid: u32)
    requires
        well_formed(session),
        pending(session) == Some(Request::StatFile),
    ensures
        ({
            let later = next(session, Event::Stat { metadata: Ok(found), euid });
            if !found.is_file || found.uid != euid || found.mode % 64 != 0 || found.nlink != 1 {
                fails(later, StorageError::FileAuthority)
            } else if session.goal == Goal::Load {
                asks(later, Request::Read { limit: 1_048_577 })
            } else if session.goal == Goal::Save && session.leased {
                asks(later, Request::Write)
            } else {
                asks(later, Request::ReadClock)
            }
        }),
{
    trusted_files_are_private(found, euid);
}

/// The lock is tried once the clock is read, and again after every sleep. A transaction
/// that acquires it has what it wanted; another writer goes before the directory once
/// more, now with the lock. A failed attempt is passed on.
pub proof fn locks_are_tried(session: Session, time: u64, fault: Fault)
    requires
        well_formed(session),
    ensures
        pending(session) == Some(Request::ReadClock) ==> asks(
            next(session, Event::Clock(time)),
            Request::TryLock,
        ),
        (pending(session) matches Some(Request::Sleep { .. })) ==> asks(
            next(session, Event::Slept),
            Request::TryLock,
        ),
        pending(session) == Some(Request::TryLock) ==> {
            let later = next(session, Event::Lock(LockReply::Acquired));
            &&& later.leased
            &&& if session.goal == Goal::Transaction {
                succeeds(later, Outcome::Leased)
            } else {
                before_the_directory(later)
            }
            &&& fails(
                next(session, Event::Lock(LockReply::Failed(fault))),
                StorageError::System(fault),
            )
        },
{
}

/// Whether the clock was read at event `i`, and showed `time`.
pub open spec fn clock_read_at(session: Session, events: Seq<Event>, i: int, time: u64) -> bool {
    &&& 0 <= i < events.len()
    &&& pending(after(session, events.take(i))) == Some(Request::ReadClock)
    &&& events[i] == Event::Clock(time)
}

/// What is known of a session once the clock has shown `time`.
spec fn waits_since(session: Session, time: u64) -> bool {
    match session.phase {
        Phase::TryLock { start } => start == time,
        Phase::Wait { start } => start == time,
        Phase::Ended(_) => true,
        _ => session.leased && session.goal != Goal::Transaction,
    }
}

proof fn wait_trail(session: Session, events: Seq<Event>, i: int, time: u64, j: int)
    requires
        fresh(session),
        clock_read_at(session, events, i, time),
        i < j <= events.len(),
    ensures
        waits_since(after(session, events.take(j)), time),
    decreases j,
{
    after_one_more(session, events, j - 1);
    sessions_stay_well_formed(session, events.take(j - 1));
    if j > i + 1 {
        wait_trail(session, events, i, time, j - 1);
    }
}

/// The wait for the lock is measured from the one reading of the clock before it: an
/// attempt that finds the lock busy ends the wait if thirty seconds or more have passed
/// since that reading, whatever attempts there were between, and otherwise is followed
/// by a sleep of twenty milliseconds.
pub proof fn waits_last_thirty_seconds(
    session: Session,
    events: Seq<Event>,
    i: int,
    time: u64,
    j: int,
    now: u64,
)
    requires
        fresh(session),
        clock_read_at(session, events, i, time),
        i < j < events.len(),
        pending(after(session, events.take(j))) == Some(Request::TryLock),
        events[j] == Event::Lock(LockReply::Busy { now }),
    ensures
        ({
            let later = after(session, events.take(j + 1));
            if now >= time + 30_000_000_000 {
                fails(later, StorageError::LockTimedOut)
            } else {
                asks(later, Request::Sleep { millis: 20 })
            }
        }),
{
    wait_trail(session, events, i, time, j);
    after_one_more(session, events, j);
}

/// The attempts and sleeps of a wait in which the lock was busy each time, at the given
/// times.
pub open spec fn busy_at(times: Seq<u64>) -> Seq<Event>
    decreases times.len(),
{
    if times.len() == 0 {
        Seq::empty()
    } else {
        busy_at(times.drop_last()).push(
            Event::Lock(LockReply::Busy { now: times.last() }),
        ).push(Event::Slept)
    }
}

/// A session that reads the clock at `start`, and finds the lock busy at each of the
/// given times, tries on exactly if none of them is thirty seconds after `start` or
/// later.
pub proof fn waits_go_on_while_in_time(session: Session, start: u64, times: Seq<u64>)
    requires
        pending(session) == Some(Request::ReadClock),
    ensures
        ({
            let later = after(session, seq![Event::Clock(start)] + busy_at(times));
            if exists|i: int| 0 <= i < times.len() && #[trigger] times[i] >= start + 30_000_000_000 {
                fails(later, StorageError::LockTimedOut)
            } else {
                asks(later, Request::TryLock)
            }
        }),
{
    wait_run(session, start, times);
}

proof fn wait_run(session: Session, start: u64, times: Seq<u64>)
    requires
        pending(session) == Some(Request::ReadClock),
    ensures
        ({
            let later = after(session, seq![Event::Clock(start)] + busy_at(times));
            if exists|i: int| 0 <= i < times.len() && #[trigger] times[i] >= start + 30_000_000_000 {
                fails(later, StorageError::LockTimedOut)
            } else {
                later.phase == (Phase::TryLock { start })
            }
        }),
    decreases times.len(),
{
    let first = seq![Event::Clock(start)];
    let events = first + busy_at(times);
    if times.len() == 0 {
        assert(events =~= first);
        assert(first.drop_last() =~= Seq::<Event>::empty());
        assert(after(session, first.drop_last()) == session);
    } else {
        let before = times.drop_last();
        wait_run(session, start, before);
        let earlier = first + busy_at(before);
        let busy = Event::Lock(LockReply::Busy { now: times.last() });
        assert(events.last() == Event::Slept);
        assert(events.drop_last() =~= earlier.push(busy));
        assert(earlier.push(busy).drop_last() =~= earlier);
        assert(after(session, earlier.push(busy)) == next(after(session, earlier), busy));
        assert(after(session, events) == next(after(session, earlier.push(busy)), Event::Slept));
        if exists|i: int| 0 <= i < before.len() && #[trigger] before[i] >= start + 30_000_000_000 {
            let i = choose|i: int|
                0 <= i < before.len() && #[trigger] before[i] >= start + 30_000_000_000;
            assert(times[i] == before[i]);
        } else {
            assert(forall|i: int| 0 <= i < before.len() ==> times[i] == before[i]);
            if times.last() >= start + 30_000_000_000 {
                assert(times[times.len() - 1] >= start + 30_000_000_000);
            } else {
                assert forall|i: int| 0 <= i < times.len() implies #[trigger] times[i] < start
                    + 30_000_000_000 by {
                    if i < before.len() {
                        assert(before[i] < start + 30_000_000_000);
                    }
                }
            }
        }
    }
}

/// A document is parsed if it has a mebibyte or less, and is refused unparsed if it has
/// more; so is what is to be saved.
pub proof fn documents_are_bounded(session: Session, bytes: Vec<u8>, fault: Fault)
    requires
        (pending(session) matches Some(Request::Read { .. })) || pending(session) == Some(
            Request::Encode,
        ),
    ensures
        ({
            let later = next(session, Event::Bytes(Ok(bytes)));
            if bytes@.len() > 1_048_576 {
                fails(later, StorageError::Document(AuthJsonError::TooLarge))
            } else {
                asks(later, Request::Decode)
            }
        }),
        fails(next(session, Event::Bytes(Err(fault))), StorageError::System(fault)),
{
}

/// A load ends with the parsed document, unchanged, if that is accepted, and with the
/// refusal if it is not. A save goes on to its temporary file under the same verdict.
pub proof fn documents_are_judged(session: Session, parsed: Option<AuthDotJson>)
    requires
        well_formed(session),
        pending(session) == Some(Request::Decode),
    ensures
        ({
            let later = next(session, Event::Decoded(parsed));
            match judged(parsed) {
                Err(cause) => fails(later, StorageError::Document(cause)),
                Ok(auth) => {
                    &&& parsed == Some(auth)
                    &&& session.goal == Goal::Load ==> succeeds(later, Outcome::Loaded(parsed))
                    &&& session.goal != Goal::Load ==> session.goal == Goal::Save && asks(
                        later,
                        create_temporary(session.suffix),
                    )
                },
            }
        }),
{
}

/// Under the lock, a save writes its temporary file, flushes it, renames it over the
/// credentials and flushes the directory, in this order, and has then saved.
pub proof fn saves_write_flush_and_rename(session: Session)
    requires
        well_formed(session),
    ensures
        ({
            let later = next(session, Event::Completed(Ok(())));
            &&& pending(session) == Some(Request::Write) ==> asks(later, Request::SyncFile)
            &&& pending(session) == Some(Request::SyncFile) ==> asks(
                later,
                Request::Rename {
                    from: FileName::Temporary(session.suffix),
                    to: FileName::Credentials,
                },
            )
            &&& (pending(session) matches Some(Request::Rename { .. })) ==> asks(
                later,
                Request::SyncDirectory,
            )
            &&& pending(session) == Some(Request::SyncDirectory) && session.goal == Goal::Save
                ==> succeeds(later, Outcome::Saved)
        }),
{
}

/// A save of which a step fails once its temporary file is open asks for that file to
/// be removed, and ends with that failure however the removal goes.
pub proof fn failed_steps_are_undone(
    session: Session,
    cause: Fault,
    removal: Result<(), Fault>,
)
    requires
        well_formed(session),
        session.goal == Goal::Save,
        pending(session) == Some(Request::Write) || pending(session) == Some(Request::SyncFile) || (
        pending(session) matches Some(Request::Rename { .. })) || pending(session) == Some(
            Request::SyncDirectory,
        ),
    ensures
        ({
            let later = next(session, Event::Completed(Err(cause)));
            &&& asks(later, Request::Unlink { name: FileName::Temporary(session.suffix) })
            &&& fails(next(later, Event::Completed(removal)), StorageError::System(cause))
        }),
{
}

/// Under the lock, a delete removes the credentials and flushes the directory. It says
/// that there were some exactly if they could be removed, and that there were none
/// exactly if they were not found; any other failure is passed on.
pub proof fn deletes_remove_and_flush(session: Session, fault: Fault)
    requires
        well_formed(session),
        session.goal == Goal::Delete,
    ensures
        (pending(session) matches Some(Request::Unlink { .. })) ==> {
            let later = next(session, Event::Completed(Err(fault)));
            &&& pending(session) == Some(Request::Unlink { name: FileName::Credentials })
            &&& asks(next(session, Event::Completed(Ok(()))), Request::SyncDirectory)
            &&& if fault.kind == FaultKind::NotFound {
                succeeds(later, Outcome::Deleted(false))
            } else {
                fails(later, StorageError::System(fault))
            }
        },
        pending(session) == Some(Request::SyncDirectory) ==> {
            &&& succeeds(next(session, Event::Completed(Ok(()))), Outcome::Deleted(true))
            &&& fails(next(session, Event::Completed(Err(fault))), StorageError::System(fault))
        },
{
}

/// Whoever runs a session sees exactly this: `request` says what it asks for, `step`
/// takes the answer, and `into_result` says how it ended.
pub proof fn sessions_are_run_by_their_methods(
    session: Session,
    event: Event,
    request: Option<Request>,
    later: Session,
    result: Option<Result<Outcome, StorageError>>,
)
    requires
        call_ensures(Session::request, (&session,), request),
        call_ensures(Session::step, (session, event), later),
        call_ensures(Session::into_result, (session,), result),
    ensures
        request == pending(session),
        later == next(session, event),
        result == ended(session),
        request is None <==> result is Some,
{
}

/// A session that is started is a fresh one with what it was given.
pub proof fn started_sessions_are_fresh(
    goal: Goal,
    root: Vec<u8>,
    leased: bool,
    suffix: u64,
    session: Session,
)
    requires
        call_ensures(Session::start, (goal, root, leased, suffix), session),
    ensures
        session.goal == goal,
        session.root == root,
        session.leased == leased,
        session.suffix == suffix,
        before_the_directory(session),
{
}

/// What the functions that inspect files and directories return.
pub proof fn inspections_go_by_owner_and_mode(
    found: Metadata,
    euid: u32,
    file: bool,
    directory: bool,
    private: bool,
)
    requires
        call_ensures(is_trusted_file, (&found, euid), file),
        call_ensures(is_trusted_directory, (&found, euid), directory),
        call_ensures(is_private_mode, (found.mode,), private),
    ensures
        private <==> found.mode % 64 == 0,
        directory <==> found.uid == euid && private,
        file <==> directory && found.is_file && found.nlink == 1,
{
    trusted_directories_are_private(found, euid);
    trusted_files_are_private(found, euid);
}

} // verus!
