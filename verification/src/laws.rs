//! What holds of every session, whatever it is told.

use crate::credentials::{judged, oversized, AuthDotJson, AuthJsonError};
use crate::error::{Fault, StorageError};
use crate::names::FileName;
use crate::path::{
    absolute, components_of, descriptor_route, fd_name, numeric, proc_name, same, SLASH,
};
use crate::session::{
    acquires, ended, locking, next, pending, private_mode, route, trusted_directory, trusted_file,
    Access, Event, Goal, LockReply, Outcome, Phase, Request, Session, LOCK_RETRY_MILLIS,
    LOCK_WAIT_NANOS, PRIVATE_FILE,
};
use vstd::prelude::*;

verus! {

/// The session after a sequence of events.
pub open spec fn after(session: Session, events: Seq<Event>) -> Session
    decreases events.len(),
{
    if events.len() == 0 {
        session
    } else {
        next(after(session, events.drop_last()), events.last())
    }
}

/// Whether a session is at its start.
pub open spec fn fresh(session: Session) -> bool {
    session.phase == route(session.root@)
}

/// Whether an event answers a request.
pub open spec fn answers(request: Request, event: Event) -> bool {
    match request {
        Request::Canonicalize => event is Path,
        Request::StatDirectory | Request::StatLease | Request::StatFile => event is Stat,
        Request::ReadClock => event is Clock,
        Request::TryLock => event is Lock,
        Request::Sleep { .. } => event is Slept,
        Request::Read { .. } | Request::Encode => event is Bytes,
        Request::Decode => event is Decoded,
        Request::OpenRoot { .. } | Request::OpenFile { .. } | Request::Write | Request::SyncFile
        | Request::Rename { .. } | Request::SyncDirectory | Request::Unlink { .. } =>
        event is Completed,
    }
}

/// Phases in which the directory's contents are looked at or changed.
pub open spec fn inside(phase: Phase) -> bool {
    match phase {
        Phase::Canonicalize | Phase::OpenRoot | Phase::StatDirectory | Phase::StatLease { .. }
        | Phase::Ended(_) => false,
        _ => true,
    }
}

/// Phases in which an open file is locked, read or written, or is about to
/// replace the credentials.
pub open spec fn uses_file(phase: Phase) -> bool {
    match phase {
        Phase::ReadClock | Phase::TryLock { .. } | Phase::Wait { .. } | Phase::Read | Phase::Write
        | Phase::SyncFile | Phase::Rename | Phase::Discard { .. } => true,
        _ => false,
    }
}

/// Whether a request can change the credentials, or the file that is to replace
/// them.
pub open spec fn changes_credentials(request: Request) -> bool {
    match request {
        Request::Write | Request::Rename { .. } | Request::Unlink { .. } => true,
        Request::OpenFile { name, flags, .. } => name != FileName::Lock && (flags.create
            || flags.access != Access::Read),
        _ => false,
    }
}

/// What every session that was properly begun keeps: it writes only with the
/// lock, and each phase is one of its goal's.
pub open spec fn well_formed(session: Session) -> bool {
    match session.phase {
        Phase::Encode | Phase::Write | Phase::SyncFile | Phase::Rename | Phase::Discard { .. } =>
        session.goal == Goal::Save && session.leased,
        Phase::SyncDirectory => session.leased && (session.goal == Goal::Save || session.goal
            == Goal::Delete),
        Phase::Unlink => session.goal == Goal::Delete && session.leased,
        Phase::ReadClock | Phase::TryLock { .. } | Phase::Wait { .. } => locking(
            session.goal,
            session.leased,
        ),
        Phase::Read => session.goal == Goal::Load,
        Phase::Decode => session.goal == Goal::Load || (session.goal == Goal::Save
            && session.leased),
        Phase::OpenFile | Phase::StatFile => locking(session.goal, session.leased) || session.goal
            == Goal::Load || (session.goal == Goal::Save && session.leased),
        Phase::StatLease { .. } => session.leased,
        _ => true,
    }
}

/// A step further along a sequence of events.
pub proof fn after_one_more(session: Session, events: Seq<Event>, i: int)
    requires
        0 <= i < events.len(),
    ensures
        after(session, events.take(i + 1)) == next(after(session, events.take(i)), events[i]),
{
    assert(events.take(i + 1).drop_last() =~= events.take(i));
}

/// A session begins well-formed, and every event keeps it so.
pub proof fn sessions_stay_well_formed(session: Session, events: Seq<Event>)
    requires
        fresh(session),
    ensures
        well_formed(after(session, events)),
        after(session, events).goal == session.goal,
        after(session, events).root == session.root,
        after(session, events).suffix == session.suffix,
    decreases events.len(),
{
    if events.len() > 0 {
        sessions_stay_well_formed(session, events.drop_last());
    }
}

/// Nothing that can change the credentials is asked for without the writer lock.
pub proof fn writers_hold_the_lock(session: Session, events: Seq<Event>)
    requires
        fresh(session),
    ensures
        pending(after(session, events)) matches Some(request) && changes_credentials(request)
            ==> after(session, events).leased,
{
    sessions_stay_well_formed(session, events);
}

/// A session that was begun without a lease and holds the lock acquired it.
pub proof fn the_lock_is_acquired(session: Session, events: Seq<Event>)
    requires
        !session.leased,
        after(session, events).leased,
    ensures
        exists|i: int|
            0 <= i < events.len() && acquires(#[trigger] after(session, events.take(i)), events[i]),
    decreases events.len(),
{
    let before = events.drop_last();
    let n = before.len() as int;
    assert(events.take(n) =~= before);
    if after(session, before).leased {
        the_lock_is_acquired(session, before);
        let i = choose|i: int|
            0 <= i < before.len() && acquires(#[trigger] after(session, before.take(i)), before[i]);
        assert(before.take(i) =~= events.take(i));
        assert(acquires(after(session, events.take(i)), events[i]));
    } else {
        assert(acquires(after(session, events.take(n)), events[n]));
    }
}

/// Until it acquires the lock, a save or delete that was begun without a lease
/// goes through the phases of a transaction. So where a transaction would fail to
/// get the lock, it fails with the same error; and it asks for nothing that can
/// change the credentials.
pub proof fn writers_begin_as_transactions(
    writer: Session,
    transaction: Session,
    events: Seq<Event>,
)
    requires
        fresh(writer),
        fresh(transaction),
        writer.goal == Goal::Save || writer.goal == Goal::Delete,
        transaction.goal == Goal::Transaction,
        writer.root@ == transaction.root@,
        !writer.leased,
        !transaction.leased,
        !after(writer, events).leased,
    ensures
        !after(transaction, events).leased,
        after(writer, events).phase == after(transaction, events).phase,
        pending(after(writer, events)) == pending(after(transaction, events)),
        ended(after(writer, events)) == ended(after(transaction, events)),
        !(ended(after(writer, events)) matches Some(Ok(_))),
        !(pending(after(writer, events)) matches Some(request) && changes_credentials(request)),
    decreases events.len(),
{
    sessions_stay_well_formed(writer, events);
    sessions_stay_well_formed(transaction, events);
    if events.len() > 0 {
        let before = events.drop_last();
        writers_begin_as_transactions(writer, transaction, before);
        sessions_stay_well_formed(writer, before);
        sessions_stay_well_formed(transaction, before);
    }
}

/// Where a transaction fails, a save or delete that was begun without a lease and
/// is told the same fails with the same error, without the lock.
pub proof fn writers_fail_as_transactions(
    writer: Session,
    transaction: Session,
    events: Seq<Event>,
    error: StorageError,
)
    requires
        fresh(writer),
        fresh(transaction),
        writer.goal == Goal::Save || writer.goal == Goal::Delete,
        transaction.goal == Goal::Transaction,
        writer.root@ == transaction.root@,
        !writer.leased,
        !transaction.leased,
        ended(after(transaction, events)) == Some(Err::<Outcome, StorageError>(error)),
    ensures
        !after(writer, events).leased,
        ended(after(writer, events)) == Some(Err::<Outcome, StorageError>(error)),
{
    failed_transactions_do_not_lease(transaction, writer, events);
    writers_begin_as_transactions(writer, transaction, events);
}

proof fn failed_transactions_do_not_lease(
    transaction: Session,
    writer: Session,
    events: Seq<Event>,
)
    requires
        fresh(writer),
        fresh(transaction),
        writer.goal == Goal::Save || writer.goal == Goal::Delete,
        transaction.goal == Goal::Transaction,
        writer.root@ == transaction.root@,
        !writer.leased,
        !transaction.leased,
    ensures
        ended(after(transaction, events)) != Some(Ok::<Outcome, StorageError>(Outcome::Leased))
            ==> !after(writer, events).leased && !after(transaction, events).leased,
    decreases events.len(),
{
    if events.len() > 0 {
        let before = events.drop_last();
        failed_transactions_do_not_lease(transaction, writer, before);
        let w = after(writer, before);
        let t = after(transaction, before);
        sessions_stay_well_formed(transaction, before);
        if ended(t) == Some(Ok::<Outcome, StorageError>(Outcome::Leased)) {
            assert(next(t, events.last()).phase == t.phase);
        } else {
            writers_begin_as_transactions(writer, transaction, before);
            assert(acquires(w, events.last()) == acquires(t, events.last()));
        }
    }
}

/// Whether the directory was found to be one's own and private at event `i`,
/// with the lock held or not, as `leased` says.
pub open spec fn trusts_directory_at(
    session: Session,
    events: Seq<Event>,
    i: int,
    leased: bool,
) -> bool {
    &&& after(session, events.take(i)).phase is StatDirectory
    &&& after(session, events.take(i)).leased == leased
    &&& events[i] matches Event::Stat { metadata: Ok(found), euid }
    &&& trusted_directory(found, euid)
}

/// Whether the directory was found, under the lock, to be that of the lease at
/// event `i`.
pub open spec fn confirms_lease_at(session: Session, events: Seq<Event>, i: int) -> bool {
    &&& after(session, events.take(i)).leased
    &&& after(session, events.take(i)).phase matches Phase::StatLease { dev, ino }
    &&& events[i] matches Event::Stat { metadata: Ok(held), .. }
    &&& held.dev == dev
    &&& held.ino == ino
}

/// Whether the open file was found to be a private regular file of one's own at
/// event `i`, with the lock held or not, as `leased` says.
pub open spec fn trusts_file_at(
    session: Session,
    events: Seq<Event>,
    i: int,
    leased: bool,
) -> bool {
    &&& after(session, events.take(i)).phase is StatFile
    &&& after(session, events.take(i)).leased == leased
    &&& events[i] matches Event::Stat { metadata: Ok(found), euid }
    &&& trusted_file(found, euid)
}

proof fn witness_stays(events: Seq<Event>, i: int)
    requires
        events.len() > 0,
        0 <= i < events.drop_last().len(),
    ensures
        events.drop_last().take(i) == events.take(i),
        events.drop_last()[i] == events[i],
{
    assert(events.drop_last().take(i) =~= events.take(i));
}

/// Nothing in the directory is touched before the directory was found to be
/// one's own and private; and, under a lease, to be that of the lease. Once the
/// lock is acquired, the directory is opened and inspected anew.
pub proof fn only_trusted_directories_are_entered(session: Session, events: Seq<Event>)
    requires
        fresh(session),
        inside(after(session, events).phase),
    ensures
        exists|i: int| 0 <= i < events.len() && #[trigger] trusts_directory_at(
            session,
            events,
            i,
            after(session, events).leased,
        ),
        after(session, events).leased ==> exists|i: int|
            0 <= i < events.len() && #[trigger] confirms_lease_at(session, events, i),
{
    directory_trail(session, events);
}

/// What the events so far show of the directory, for every phase.
proof fn directory_trail(session: Session, events: Seq<Event>)
    requires
        fresh(session),
    ensures
        inside(after(session, events).phase) || after(session, events).phase is StatLease
            ==> exists|i: int|
            0 <= i < events.len() && #[trigger] trusts_directory_at(
            session,
            events,
            i,
            after(session, events).leased,
        ),
        inside(after(session, events).phase) && after(session, events).leased ==> exists|i: int|
            0 <= i < events.len() && #[trigger] confirms_lease_at(session, events, i),
    decreases events.len(),
{
    if events.len() > 0 {
        let before = events.drop_last();
        let n = before.len() as int;
        assert(events.take(n) =~= before);
        directory_trail(session, before);
        let s = after(session, before);
        let e = events.last();
        if inside(s.phase) || s.phase is StatLease {
            let i = choose|i: int|
                0 <= i < before.len() && #[trigger] trusts_directory_at(session, before, i, s.leased);
            witness_stays(events, i);
            assert(trusts_directory_at(session, events, i, s.leased));
            assert(!acquires(s, e) ==> trusts_directory_at(
                session,
                events,
                i,
                after(session, events).leased,
            ));
        }
        if inside(s.phase) && s.leased {
            let i = choose|i: int|
                0 <= i < before.len() && #[trigger] confirms_lease_at(session, before, i);
            witness_stays(events, i);
            assert(confirms_lease_at(session, events, i));
        }
        if s.phase is StatDirectory {
            assert((inside(next(s, e).phase) || next(s, e).phase is StatLease)
                ==> trusts_directory_at(session, events, n, after(session, events).leased));
        }
        if s.phase is StatLease {
            sessions_stay_well_formed(session, before);
            assert(inside(next(s, e).phase) ==> confirms_lease_at(session, events, n));
        }
    }
}

/// No file is locked, read or written, and none replaces the credentials,
/// before it was found to be a private regular file of one's own.
pub proof fn only_trusted_files_are_used(session: Session, events: Seq<Event>)
    requires
        fresh(session),
        uses_file(after(session, events).phase),
    ensures
        exists|i: int| 0 <= i < events.len() && #[trigger] trusts_file_at(
            session,
            events,
            i,
            after(session, events).leased,
        ),
    decreases events.len(),
{
    if events.len() > 0 {
        let before = events.drop_last();
        let n = before.len() as int;
        assert(events.take(n) =~= before);
        let s = after(session, before);
        sessions_stay_well_formed(session, before);
        sessions_stay_well_formed(session, events);
        if s.phase is StatFile {
            assert(trusts_file_at(session, events, n, after(session, events).leased));
        } else if s.phase is SyncDirectory {
            file_trail(session, before);
            let i = choose|i: int|
                0 <= i < before.len() && #[trigger] trusts_file_at(session, before, i, s.leased);
            witness_stays(events, i);
            assert(trusts_file_at(session, events, i, after(session, events).leased));
        } else {
            assert(uses_file(s.phase));
            only_trusted_files_are_used(session, before);
            let i = choose|i: int|
                0 <= i < before.len() && #[trigger] trusts_file_at(session, before, i, s.leased);
            witness_stays(events, i);
            assert(trusts_file_at(session, events, i, after(session, events).leased));
        }
    }
}

/// A save that has renamed its file has inspected it, too.
proof fn file_trail(session: Session, events: Seq<Event>)
    requires
        fresh(session),
        session.goal == Goal::Save,
        after(session, events).phase is SyncDirectory,
    ensures
        exists|i: int| 0 <= i < events.len() && #[trigger] trusts_file_at(
            session,
            events,
            i,
            after(session, events).leased,
        ),
    decreases events.len(),
{
    if events.len() > 0 {
        let before = events.drop_last();
        assert(events.take(before.len() as int) =~= before);
        let s = after(session, before);
        sessions_stay_well_formed(session, before);
        if s.phase is SyncDirectory {
            file_trail(session, before);
        } else {
            only_trusted_files_are_used(session, before);
        }
        let i = choose|i: int|
            0 <= i < before.len() && #[trigger] trusts_file_at(session, before, i, s.leased);
        witness_stays(events, i);
        assert(trusts_file_at(session, events, i, after(session, events).leased));
    }
}

/// The credentials are only ever opened for reading; what is written is a new
/// file of its own. No file is opened through a symlink, and every file is
/// created for its owner alone.
pub proof fn credentials_are_never_written_in_place(session: Session)
    ensures
        pending(session) matches Some(Request::OpenFile { name, flags, permissions }) ==> {
            &&& name == FileName::Credentials ==> flags.access == Access::Read && !flags.create
            &&& name is Temporary ==> flags.create && flags.exclusive
            &&& flags.no_follow
            &&& permissions == PRIVATE_FILE
            &&& private_mode(permissions)
        },
        pending(session) matches Some(Request::Rename { from, to }) ==> from is Temporary && to
            == FileName::Credentials,
{
    assert(0o600u32 & 0o077u32 == 0) by (bit_vector);
}

/// A private mode has no permission bit for the group or for others.
pub proof fn private_modes(mode: u32)
    ensures
        private_mode(mode) <==> mode % 64 == 0,
{
    assert((mode & 0o077u32 == 0) <==> (mode % 64 == 0)) by (bit_vector);
}

/// A session that has ended stays as it is.
pub proof fn ended_sessions_stay_ended(session: Session, events: Seq<Event>)
    requires
        ended(session) is Some,
    ensures
        after(session, events) == session,
    decreases events.len(),
{
    if events.len() > 0 {
        ended_sessions_stay_ended(session, events.drop_last());
    }
}

/// Whether a save has its temporary file open, or has just renamed it.
pub open spec fn replacing(session: Session) -> bool {
    session.goal == Goal::Save && match session.phase {
        Phase::Write | Phase::SyncFile | Phase::Rename | Phase::SyncDirectory => true,
        _ => false,
    }
}

/// A save that fails with its temporary file open asks for the file to be
/// removed, and reports the failure however the removal goes.
pub proof fn failed_saves_clean_up(session: Session, cause: Fault, removal: Result<(), Fault>)
    requires
        replacing(session),
    ensures
        ({
            let cleaning = next(session, Event::Completed(Err(cause)));
            &&& pending(cleaning) == Some(
                Request::Unlink { name: FileName::Temporary(session.suffix) },
            )
            &&& ended(next(cleaning, Event::Completed(removal))) == Some(
                Err::<Outcome, StorageError>(StorageError::System(cause)),
            )
        }),
{
}

/// While the lock is busy, a writer sleeps and tries again until thirty seconds
/// have passed, and then gives up.
pub proof fn busy_locks_are_retried(session: Session, start: u64, now: u64)
    requires
        session.phase == (Phase::TryLock { start }),
    ensures
        ({
            let waiting = next(session, Event::Lock(LockReply::Busy { now }));
            if now < start + LOCK_WAIT_NANOS {
                &&& pending(waiting) == Some(Request::Sleep { millis: LOCK_RETRY_MILLIS })
                &&& pending(next(waiting, Event::Slept)) == Some(Request::TryLock)
                &&& next(waiting, Event::Slept).phase == session.phase
            } else {
                ended(waiting) == Some(
                    Err::<Outcome, StorageError>(StorageError::LockTimedOut),
                )
            }
        }),
{
}

/// How many answers a session still takes at most, retries of the lock aside.
pub open spec fn remaining(session: Session) -> nat {
    let phase: nat = match session.phase {
        Phase::Canonicalize => 20,
        Phase::OpenRoot => 19,
        Phase::StatDirectory => 18,
        Phase::StatLease { .. } => 17,
        Phase::Encode => 16,
        Phase::Decode => if session.goal == Goal::Load {
            1
        } else {
            15
        },
        Phase::OpenFile => 14,
        Phase::StatFile => 13,
        Phase::ReadClock => 12,
        Phase::TryLock { .. } | Phase::Wait { .. } => 11,
        Phase::Read => 2,
        Phase::Write => 5,
        Phase::SyncFile => 4,
        Phase::Rename | Phase::Unlink => 3,
        Phase::SyncDirectory => 2,
        Phase::Discard { .. } => 1,
        Phase::Ended(_) => 0,
    };
    if phase > 0 && session.goal != Goal::Transaction && locking(session.goal, session.leased) {
        phase + 20
    } else {
        phase
    }
}

/// Whether an event is part of the wait for a busy lock.
pub open spec fn waits(session: Session, event: Event) -> bool {
    session.phase is Wait || next(session, event).phase is Wait
}

/// Every answer brings a session closer to its end, but for those of the wait
/// for a busy lock, which leave it where it is. So every operation ends.
pub proof fn every_answer_is_progress(session: Session, events: Seq<Event>, event: Event)
    requires
        fresh(session),
        pending(after(session, events)) matches Some(request) && answers(request, event),
    ensures
        ({
            let now = after(session, events);
            &&& remaining(now) <= 40
            &&& waits(now, event) ==> remaining(next(now, event)) <= remaining(now)
            &&& !waits(now, event) ==> remaining(next(now, event)) < remaining(now)
        }),
{
    sessions_stay_well_formed(session, events);
}

/// Whether the path of the directory was found at event `i` to be what it
/// resolves to.
pub open spec fn resolves_at(session: Session, events: Seq<Event>, i: int) -> bool {
    &&& after(session, events.take(i)).phase is Canonicalize
    &&& events[i] matches Event::Path(Ok(resolved))
    &&& same(resolved@, session.root@)
}

/// The directory is opened only by an absolute path that is either an exact
/// numeric descriptor route, or was resolved and found to hold no symlink. Only
/// a descriptor route is opened through a symlink.
pub proof fn only_direct_routes_are_opened(session: Session, events: Seq<Event>)
    requires
        fresh(session),
    ensures
        pending(after(session, events)) matches Some(Request::OpenRoot { flags, .. }) ==> {
            &&& absolute(session.root@)
            &&& flags.no_follow == !descriptor_route(session.root@)
            &&& flags.directory
            &&& descriptor_route(session.root@) || exists|i: int|
                0 <= i < events.len() && #[trigger] resolves_at(session, events, i)
        },
    decreases events.len(),
{
    sessions_stay_well_formed(session, events);
    if events.len() > 0 {
        let before = events.drop_last();
        let n = before.len() as int;
        assert(events.take(n) =~= before);
        only_direct_routes_are_opened(session, before);
        sessions_stay_well_formed(session, before);
        let s = after(session, before);
        if after(session, events).phase is OpenRoot && !descriptor_route(session.root@) {
            if s.phase is Canonicalize {
                absolute_while_resolving(session, before);
                assert(resolves_at(session, events, n));
            } else {
                assert(s.phase is OpenRoot);
                let i = choose|i: int|
                    0 <= i < before.len() && #[trigger] resolves_at(session, before, i);
                witness_stays(events, i);
                assert(resolves_at(session, events, i));
            }
        } else if after(session, events).phase is OpenRoot && s.phase is Canonicalize {
            absolute_while_resolving(session, before);
        }
    }
}

proof fn absolute_while_resolving(session: Session, events: Seq<Event>)
    requires
        fresh(session),
    ensures
        after(session, events).phase is Canonicalize ==> absolute(session.root@),
    decreases events.len(),
{
    if events.len() > 0 {
        absolute_while_resolving(session, events.drop_last());
        sessions_stay_well_formed(session, events.drop_last());
    }
}

/// A relative path is refused before anything is asked for.
pub proof fn relative_routes_are_refused(session: Session, events: Seq<Event>)
    requires
        fresh(session),
        !absolute(session.root@),
    ensures
        pending(session) is None,
        ended(after(session, events)) == Some(
            Err::<Outcome, StorageError>(StorageError::Route),
        ),
{
    ended_sessions_stay_ended(session, events);
}

/// An absolute descriptor route is `/proc/<pid>/fd/<descriptor>`, with nothing
/// before, between or behind.
pub proof fn descriptor_routes_are_exact(path: Seq<u8>)
    requires
        absolute(path),
        descriptor_route(path),
    ensures
        exists|pid: Seq<u8>, descriptor: Seq<u8>|
            numeric(pid) && numeric(descriptor) && components_of(path) == #[trigger] seq![
                seq![SLASH],
                proc_name(),
                pid,
                fd_name(),
                descriptor,
            ],
{
    let parts = components_of(path);
    assert(parts =~= seq![seq![SLASH], proc_name(), parts[2], fd_name(), parts[4]]);
}

/// Whether an event reports a failed system call.
pub open spec fn reports(event: Event, fault: Fault) -> bool {
    match event {
        Event::Path(Err(found)) => found == fault,
        Event::Completed(Err(found)) => found == fault,
        Event::Stat { metadata: Err(found), .. } => found == fault,
        Event::Lock(LockReply::Failed(found)) => found == fault,
        Event::Bytes(Err(found)) => found == fault,
        _ => false,
    }
}

/// Whether an event that `session` is told is a cause for `error`.
pub open spec fn causes(session: Session, event: Event, error: StorageError) -> bool {
    match error {
        StorageError::System(fault) => reports(event, fault),
        StorageError::Route => session.phase is Canonicalize && (event matches Event::Path(
            Ok(resolved),
        ) && !same(resolved@, session.root@)),
        StorageError::DirectoryAuthority => session.phase is StatDirectory && (
        event matches Event::Stat { metadata: Ok(found), euid } && !trusted_directory(found, euid)),
        StorageError::DirectoryChanged => session.phase matches Phase::StatLease { dev, ino } && (
        event matches Event::Stat { metadata: Ok(held), .. } && (held.dev != dev || held.ino
            != ino)),
        StorageError::FileAuthority => session.phase is StatFile && (event matches Event::Stat {
            metadata: Ok(found),
            euid,
        } && !trusted_file(found, euid)),
        StorageError::LockTimedOut => session.phase matches Phase::TryLock { start } && (
        event matches Event::Lock(LockReply::Busy { now }) && now >= start + LOCK_WAIT_NANOS),
        StorageError::Document(AuthJsonError::TooLarge) => event matches Event::Bytes(Ok(bytes))
            && oversized(bytes@),
        StorageError::Document(cause) => event matches Event::Decoded(parsed) && judged(parsed)
            == Err::<AuthDotJson, AuthJsonError>(cause),
        StorageError::UnsupportedPlatform => false,
    }
}

/// Whether event `i` is a cause for `error`.
pub open spec fn causes_at(
    session: Session,
    events: Seq<Event>,
    i: int,
    error: StorageError,
) -> bool {
    causes(after(session, events.take(i)), events[i], error)
}

/// The error that a session has ended with, or is about to end with.
spec fn incurred(session: Session) -> Option<StorageError> {
    match session.phase {
        Phase::Ended(Err(error)) => Some(error),
        Phase::Discard { cause } => Some(StorageError::System(cause)),
        _ => None,
    }
}

proof fn error_trail(session: Session, events: Seq<Event>, error: StorageError)
    requires
        fresh(session),
        absolute(session.root@),
        incurred(after(session, events)) == Some(error),
    ensures
        exists|i: int| 0 <= i < events.len() && #[trigger] causes_at(session, events, i, error),
    decreases events.len(),
{
    if events.len() > 0 {
        let before = events.drop_last();
        let n = before.len() as int;
        assert(events.take(n) =~= before);
        let s = after(session, before);
        sessions_stay_well_formed(session, before);
        if incurred(s) == Some(error) {
            error_trail(session, before, error);
            let i = choose|i: int|
                0 <= i < before.len() && #[trigger] causes_at(session, before, i, error);
            witness_stays(events, i);
            assert(causes_at(session, events, i, error));
        } else {
            assert(causes_at(session, events, n, error));
        }
    }
}

/// Every error has its cause among the events, but for that of a relative path.
/// So an operation that is told of no failure, of nothing that is not trusted
/// and of no document that is refused, and that gets the lock in time, succeeds.
pub proof fn errors_have_causes(session: Session, events: Seq<Event>, error: StorageError)
    requires
        fresh(session),
        absolute(session.root@),
        ended(after(session, events)) == Some(Err::<Outcome, StorageError>(error)),
    ensures
        exists|i: int| 0 <= i < events.len() && #[trigger] causes_at(session, events, i, error),
{
    error_trail(session, events, error);
}

/// Whether the lock is held for a session: while it runs, and beyond its end if
/// it is a transaction that took the lock.
pub open spec fn holds(session: Session) -> bool {
    session.leased && match ended(session) {
        None => true,
        Some(result) => result == Ok::<Outcome, StorageError>(Outcome::Leased),
    }
}

/// Two sessions after a sequence of turns: each event goes to the first session
/// or to the second, as its flag says.
pub open spec fn after_turns(
    first: Session,
    second: Session,
    turns: Seq<(bool, Event)>,
) -> (Session, Session)
    decreases turns.len(),
{
    if turns.len() == 0 {
        (first, second)
    } else {
        let (a, b) = after_turns(first, second, turns.drop_last());
        if turns.last().0 {
            (next(a, turns.last().1), b)
        } else {
            (a, next(b, turns.last().1))
        }
    }
}

/// Whether no turn gives the lock to one session while the other holds it.
pub open spec fn lock_is_exclusive(
    first: Session,
    second: Session,
    turns: Seq<(bool, Event)>,
) -> bool
    decreases turns.len(),
{
    turns.len() > 0 ==> {
        let (a, b) = after_turns(first, second, turns.drop_last());
        &&& lock_is_exclusive(first, second, turns.drop_last())
        &&& if turns.last().0 {
            acquires(a, turns.last().1) ==> !holds(b)
        } else {
            acquires(b, turns.last().1) ==> !holds(a)
        }
    }
}

/// Two sessions that do not share a lease never both hold the lock, and are never
/// both about to change the credentials, in whatever order their calls are made.
/// One of them may have been begun with a lease.
pub proof fn writers_exclude_each_other(
    first: Session,
    second: Session,
    turns: Seq<(bool, Event)>,
)
    requires
        fresh(first),
        fresh(second),
        !(first.leased && second.leased),
        lock_is_exclusive(first, second, turns),
    ensures
        ({
            let (a, b) = after_turns(first, second, turns);
            &&& !(holds(a) && holds(b))
            &&& !(pending(a) matches Some(request) && changes_credentials(request)) || !(
            pending(b) matches Some(request) && changes_credentials(request))
        }),
{
    exclusion_trail(first, second, turns);
}

proof fn exclusion_trail(first: Session, second: Session, turns: Seq<(bool, Event)>)
    requires
        fresh(first),
        fresh(second),
        !(first.leased && second.leased),
        lock_is_exclusive(first, second, turns),
    ensures
        ({
            let (a, b) = after_turns(first, second, turns);
            &&& well_formed(a)
            &&& well_formed(b)
            &&& !(holds(a) && holds(b))
        }),
    decreases turns.len(),
{
    if turns.len() > 0 {
        exclusion_trail(first, second, turns.drop_last());
    }
}

/// A writer that is never granted the lock, and to whom nothing else goes wrong, can
/// end in one way only: the lock times out.
pub proof fn ungranted_locks_time_out(session: Session, events: Seq<Event>)
    requires
        fresh(session),
        absolute(session.root@),
        locking(session.goal, session.leased),
        forall|i: int|
            0 <= i < events.len() ==> #[trigger] events[i] != Event::Lock(LockReply::Acquired),
        forall|i: int, error: StorageError|
            0 <= i < events.len() && error != StorageError::LockTimedOut ==> !#[trigger] causes_at(
                session,
                events,
                i,
                error,
            ),
    ensures
        ended(after(session, events)) matches Some(result) ==> result == Err::<
            Outcome,
            StorageError,
        >(StorageError::LockTimedOut),
{
    ungranted_trail(session, events);
    if let Some(Err(error)) = ended(after(session, events)) {
        errors_have_causes(session, events, error);
    }
}

/// A writer that is never granted the lock does not end well.
proof fn ungranted_trail(session: Session, events: Seq<Event>)
    requires
        fresh(session),
        locking(session.goal, session.leased),
        forall|i: int|
            0 <= i < events.len() ==> #[trigger] events[i] != Event::Lock(LockReply::Acquired),
    ensures
        after(session, events).leased == session.leased,
        !(ended(after(session, events)) matches Some(Ok(_))),
    decreases events.len(),
{
    if events.len() > 0 {
        let before = events.drop_last();
        assert(forall|i: int| 0 <= i < before.len() ==> before[i] == events[i]);
        ungranted_trail(session, before);
        sessions_stay_well_formed(session, before);
        assert(events[events.len() - 1] != Event::Lock(LockReply::Acquired));
    }
}

/// How often the lock was tried.
pub open spec fn attempts(session: Session, events: Seq<Event>) -> nat
    decreases events.len(),
{
    if events.len() == 0 {
        0
    } else {
        let before = events.drop_last();
        attempts(session, before) + if after(session, before).phase is TryLock
            && events.last() is Lock {
            1nat
        } else {
            0nat
        }
    }
}

/// How often the session slept.
pub open spec fn sleeps(session: Session, events: Seq<Event>) -> nat
    decreases events.len(),
{
    if events.len() == 0 {
        0
    } else {
        let before = events.drop_last();
        sleeps(session, before) + if after(session, before).phase is Wait && events.last() is Slept {
            1nat
        } else {
            0nat
        }
    }
}

/// Whether event `i`, if it says that the lock is busy, shows at least the time that
/// was slept since the wait began.
pub open spec fn paced_at(session: Session, events: Seq<Event>, i: int) -> bool {
    after(session, events.take(i)).phase matches Phase::TryLock { start } ==> (
    events[i] matches Event::Lock(LockReply::Busy { now }) ==> now >= start + sleeps(
        session,
        events.take(i),
    ) * LOCK_RETRY_MILLIS * 1_000_000)
}

/// Whether each sleep takes as long as was asked for.
pub open spec fn paced(session: Session, events: Seq<Event>) -> bool {
    forall|i: int| 0 <= i < events.len() ==> #[trigger] paced_at(session, events, i)
}

/// Whether event `i` answers the request that was pending.
pub open spec fn answered_at(session: Session, events: Seq<Event>, i: int) -> bool {
    pending(after(session, events.take(i))) matches Some(request) && answers(request, events[i])
}

proof fn paced_before(session: Session, events: Seq<Event>)
    requires
        events.len() > 0,
        paced(session, events),
    ensures
        paced(session, events.drop_last()),
{
    let before = events.drop_last();
    assert forall|i: int| 0 <= i < before.len() implies #[trigger] paced_at(session, before, i) by {
        witness_stays(events, i);
        assert(paced_at(session, events, i));
    }
}

/// What holds of the counts in each phase.
spec fn counts_hold(now: Session, tried: nat, slept: nat) -> bool {
    match now.phase {
        Phase::TryLock { .. } => tried == slept && slept <= 1500,
        Phase::Wait { .. } => tried == slept + 1 && slept < 1500,
        Phase::Ended(_) => tried <= slept + 1 && slept <= 1500,
        _ => if locking(now.goal, now.leased) {
            tried == 0 && slept == 0
        } else {
            tried <= slept + 1 && slept <= 1500
        },
    }
}

proof fn counts_trail(session: Session, events: Seq<Event>)
    requires
        fresh(session),
        paced(session, events),
    ensures
        counts_hold(after(session, events), attempts(session, events), sleeps(session, events)),
    decreases events.len(),
{
    if events.len() > 0 {
        let before = events.drop_last();
        let n = before.len() as int;
        assert(events.take(n) =~= before);
        paced_before(session, events);
        counts_trail(session, before);
        sessions_stay_well_formed(session, before);
        assert(paced_at(session, events, n));
    }
}

/// The wait for the lock is bounded: where each sleep takes as long as was asked for,
/// a session sleeps at most fifteen hundred times, and tries the lock at most once
/// more than that.
pub proof fn lock_waits_are_bounded(session: Session, events: Seq<Event>)
    requires
        fresh(session),
        paced(session, events),
    ensures
        sleeps(session, events) <= 1500,
        attempts(session, events) <= 1501,
{
    counts_trail(session, events);
}

/// What is left of a session, and what it took so far.
proof fn length_trail(session: Session, events: Seq<Event>)
    requires
        fresh(session),
        paced(session, events),
        forall|i: int| 0 <= i < events.len() ==> #[trigger] answered_at(session, events, i),
    ensures
        events.len() + remaining(after(session, events)) <= 40 + 2 * sleeps(session, events) + (
        if after(session, events).phase is Wait {
            1int
        } else {
            0int
        }),
    decreases events.len(),
{
    sessions_stay_well_formed(session, events);
    if events.len() > 0 {
        let before = events.drop_last();
        let n = before.len() as int;
        assert(events.take(n) =~= before);
        paced_before(session, events);
        assert forall|i: int| 0 <= i < before.len() implies #[trigger] answered_at(
            session,
            before,
            i,
        ) by {
            witness_stays(events, i);
            assert(answered_at(session, events, i));
        }
        length_trail(session, before);
        assert(answered_at(session, events, n));
        every_answer_is_progress(session, before, events.last());
        sessions_stay_well_formed(session, before);
    }
}

/// Every operation ends: where each event is an answer and each sleep takes as long as
/// was asked for, a session that has not ended waits for an answer, and none takes more
/// than three thousand and forty answers.
pub proof fn every_operation_ends(session: Session, events: Seq<Event>)
    requires
        fresh(session),
        paced(session, events),
        forall|i: int| 0 <= i < events.len() ==> #[trigger] answered_at(session, events, i),
    ensures
        events.len() <= 3040,
        ended(after(session, events)) is None ==> pending(after(session, events)) is Some
            && events.len() < 3040,
{
    length_trail(session, events);
    counts_trail(session, events);
}

} // verus!
