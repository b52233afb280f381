//! What sessions do to the directory: a save replaces the credentials as a whole or
//! not at all, a load changes nothing and reports what is there, a delete leaves
//! nothing, and nothing is ever written to a file that was there before.

use crate::credentials::{judged, oversized, AuthDotJson, AuthJsonError};
use crate::disk::{
    bound, performed, reported, sound, step_performed, stored, trusted_at, verdict, welcoming,
    Codec, Disk, Run, Scene,
};
use crate::error::{Fault, StorageError};
use crate::laws::{after_one_more, sessions_stay_well_formed, well_formed};
use crate::names::FileName;
use crate::path::{absolute, descriptor_route, same, same_paths_agree_in_every_component};
use crate::protocol::{agree, trusted_directories_are_private, trusted_files_are_private};
use crate::session::{
    ended, locking, next, pending, trusted_file, Event, Goal, Outcome, Phase, Request, Session,
};
use vstd::prelude::*;

verus! {

/// Whether a name leads to the file that it led to at first, with the contents that
/// it had; or to none, as at first.
pub open spec fn file_kept(first: Disk, disk: Disk, name: FileName) -> bool {
    &&& disk.names.contains_key(name) == first.names.contains_key(name)
    &&& disk.names.contains_key(name) ==> {
        &&& disk.names[name] == first.names[name]
        &&& disk.contents[disk.names[name]] == first.contents[first.names[name]]
    }
}

/// Whether the credentials are as they were at first, down to what is known of their
/// file and to whether it would survive a crash.
pub open spec fn kept(first: Disk, disk: Disk) -> bool {
    &&& file_kept(first, disk, FileName::Credentials)
    &&& disk.names.contains_key(FileName::Credentials) ==> {
        let file = disk.names[FileName::Credentials];
        &&& disk.flushed.contains(file) == first.flushed.contains(file)
        &&& disk.metadata[file] == first.metadata[file]
    }
}

/// Whether the credentials are the new ones: whole, flushed, and in a file of their
/// own that was not there at first and may hold credentials.
pub open spec fn replaced(codec: Codec, first: Disk, disk: Disk) -> bool {
    &&& stored(disk) == Some(codec.encoded)
    &&& disk.flushed.contains(disk.names[FileName::Credentials])
    &&& !first.contents.contains_key(disk.names[FileName::Credentials])
    &&& trusted_at(disk, FileName::Credentials)
}

/// Whether the lock file holds what it held, or nothing if it is new.
pub open spec fn lock_unwritten(first: Disk, disk: Disk) -> bool {
    if first.names.contains_key(FileName::Lock) {
        file_kept(first, disk, FileName::Lock)
    } else {
        disk.names.contains_key(FileName::Lock) ==> disk.contents[disk.names[FileName::Lock]]
            == Seq::<u8>::empty()
    }
}

/// Whether two disks hold the same files, but for those that a session with the
/// given suffix may touch.
pub open spec fn others_kept(first: Disk, disk: Disk, suffix: u64) -> bool {
    forall|name: FileName|
        name != FileName::Credentials && name != FileName::Lock && name != FileName::Temporary(
            suffix,
        ) ==> #[trigger] file_kept(first, disk, name)
}

/// Whether all files that were there at first hold what they held.
pub open spec fn unwritten(first: Disk, disk: Disk) -> bool {
    forall|file: nat| #[trigger]
        first.contents.contains_key(file) ==> disk.contents.contains_key(file)
            && disk.contents[file] == first.contents[file]
}

/// Whether the file that is open is a new one, to which the temporary name alone
/// leads.
spec fn own_file(first: Disk, suffix: u64, scene: Scene) -> bool {
    let temporary = FileName::Temporary(suffix);
    &&& scene.disk.names.contains_key(temporary)
    &&& scene.disk.names[temporary] == scene.hands.open
    &&& !first.contents.contains_key(scene.hands.open)
    &&& forall|name: FileName| #[trigger]
        scene.disk.names.contains_key(name) && name != temporary ==> scene.disk.names[name]
            != scene.hands.open
}

/// Whether a save has its temporary file open.
spec fn writing(session: Session) -> bool {
    session.goal == Goal::Save && session.leased && match session.phase {
        Phase::StatFile | Phase::Write | Phase::SyncFile | Phase::Rename => true,
        _ => false,
    }
}

/// What holds of the files in every session.
spec fn files_invariant(first: Disk, session: Session, scene: Scene) -> bool {
    let disk = scene.disk;
    let temporary = FileName::Temporary(session.suffix);
    &&& sound(first)
    &&& sound(disk)
    &&& unwritten(first, disk)
    &&& others_kept(first, disk, session.suffix)
    &&& lock_unwritten(first, disk)
    &&& session.goal != Goal::Save ==> file_kept(first, disk, temporary)
    &&& writing(session) ==> own_file(first, session.suffix, scene)
    &&& session.phase is Discard && disk.names.contains_key(temporary) ==> own_file(
        first,
        session.suffix,
        scene,
    )
    &&& session.goal == Goal::Save && session.phase is SyncDirectory ==> !disk.names.contains_key(
        temporary,
    )
    &&& disk.directory == first.directory
    &&& disk.canonical == first.canonical
    &&& disk.euid == first.euid
}

proof fn files_step(
    codec: Codec,
    first: Disk,
    session: Session,
    scene: Scene,
    request: Request,
    event: Event,
    later: Scene,
)
    requires
        well_formed(session),
        files_invariant(first, session, scene),
        pending(session) == Some(request),
        performed(codec, scene, request, event, later),
    ensures
        files_invariant(first, next(session, event), later),
{
    let disk = scene.disk;
    assert forall|name: FileName|
        name != FileName::Credentials && name != FileName::Lock && name != FileName::Temporary(
            session.suffix,
        ) implies #[trigger] file_kept(first, later.disk, name) by {
        assert(file_kept(first, disk, name));
    }
}

/// Whether the path of the directory is one by which it may be opened.
spec fn direct(session: Session, disk: Disk) -> bool {
    absolute(session.root@) && (descriptor_route(session.root@) || same(
        disk.canonical,
        session.root@,
    ))
}

/// What every session has made sure of concerning the directory; `begun` is the
/// session at its start.
spec fn directory_invariant(begun: Session, session: Session, scene: Scene) -> bool {
    let disk = scene.disk;
    &&& match session.phase {
        Phase::Canonicalize => absolute(session.root@) && !descriptor_route(session.root@),
        Phase::OpenRoot | Phase::StatDirectory => direct(session, disk),
        Phase::StatLease { dev, ino } => welcoming(disk, session.root@) && dev
            == disk.directory.dev && ino == disk.directory.ino,
        Phase::Ended(Err(_)) => true,
        _ => welcoming(disk, session.root@) && (session.leased ==> bound(scene)),
    }
    &&& session.leased && !begun.leased ==> bound(scene)
}

proof fn directory_step(
    codec: Codec,
    begun: Session,
    session: Session,
    scene: Scene,
    request: Request,
    event: Event,
    later: Scene,
)
    requires
        well_formed(session),
        directory_invariant(begun, session, scene),
        pending(session) == Some(request),
        performed(codec, scene, request, event, later),
    ensures
        directory_invariant(begun, next(session, event), later),
{
    assert(later.disk.directory == scene.disk.directory);
    assert(later.disk.canonical == scene.disk.canonical);
    assert(later.disk.euid == scene.disk.euid);
}

/// What every session has made sure of concerning the lock file.
spec fn lock_invariant(begun: Session, session: Session, scene: Scene) -> bool {
    let disk = scene.disk;
    &&& match session.phase {
        Phase::StatFile => locking(session.goal, session.leased) ==> disk.names.contains_key(
            FileName::Lock,
        ) && scene.hands.open == disk.names[FileName::Lock],
        Phase::ReadClock | Phase::TryLock { .. } | Phase::Wait { .. } => trusted_at(
            disk,
            FileName::Lock,
        ),
        Phase::Ended(Ok(Outcome::Leased)) => trusted_at(disk, FileName::Lock),
        _ => true,
    }
    &&& session.leased && !begun.leased ==> trusted_at(disk, FileName::Lock)
}

/// No request makes a trusted lock file an untrusted one.
proof fn trusted_locks_stay(
    codec: Codec,
    session: Session,
    scene: Scene,
    request: Request,
    event: Event,
    later: Scene,
)
    requires
        trusted_at(scene.disk, FileName::Lock),
        pending(session) == Some(request),
        performed(codec, scene, request, event, later),
    ensures
        trusted_at(later.disk, FileName::Lock),
        later.disk.names[FileName::Lock] == scene.disk.names[FileName::Lock],
{
    let file = scene.disk.names[FileName::Lock];
    assert(scene.disk.names.contains_key(FileName::Lock));
    if let Request::Rename { to, .. } = request {
        assert(scene.disk.names.contains_key(to) ==> scene.disk.names[to] != file);
    }
    if let Request::Unlink { name } = request {
        assert(scene.disk.names.contains_key(name) ==> scene.disk.names[name] != file);
    }
    assert(later.disk.metadata[file] == scene.disk.metadata[file]);
}

proof fn lock_step(
    codec: Codec,
    begun: Session,
    session: Session,
    scene: Scene,
    request: Request,
    event: Event,
    later: Scene,
)
    requires
        well_formed(session),
        lock_invariant(begun, session, scene),
        pending(session) == Some(request),
        performed(codec, scene, request, event, later),
    ensures
        lock_invariant(begun, next(session, event), later),
{
    if trusted_at(scene.disk, FileName::Lock) {
        trusted_locks_stay(codec, session, scene, request, event, later);
    }
}

/// Whether the encoded credentials are at hand, and would be accepted.
spec fn encoded_and_accepted(codec: Codec, scene: Scene) -> bool {
    scene.hands.buffer == codec.encoded && verdict(codec, codec.encoded) is Ok
}

/// Whether the file that is open may hold credentials.
spec fn trusted_open(scene: Scene) -> bool {
    trusted_file(scene.disk.metadata[scene.hands.open], scene.disk.euid)
}

/// What holds in each phase of a save.
spec fn save_invariant(codec: Codec, first: Disk, session: Session, scene: Scene) -> bool {
    let disk = scene.disk;
    let accepted = verdict(codec, codec.encoded) is Ok;
    match session.phase {
        Phase::Decode => kept(first, disk) && scene.hands.buffer == codec.encoded && !oversized(
            codec.encoded,
        ),
        Phase::OpenFile | Phase::StatFile => kept(first, disk) && (session.leased
            ==> encoded_and_accepted(codec, scene)),
        Phase::Write => kept(first, disk) && encoded_and_accepted(codec, scene) && trusted_open(
            scene,
        ),
        Phase::SyncFile => {
            &&& kept(first, disk)
            &&& accepted
            &&& trusted_open(scene)
            &&& disk.contents[scene.hands.open] == codec.encoded
        },
        Phase::Rename => {
            &&& kept(first, disk)
            &&& accepted
            &&& trusted_open(scene)
            &&& disk.contents[scene.hands.open] == codec.encoded
            &&& disk.flushed.contains(scene.hands.open)
        },
        Phase::SyncDirectory => replaced(codec, first, disk) && accepted,
        Phase::Discard { .. } => (kept(first, disk) || replaced(codec, first, disk)) && accepted,
        Phase::Ended(Ok(outcome)) => {
            &&& outcome == Outcome::Saved
            &&& replaced(codec, first, disk)
            &&& disk.settled
            &&& accepted
            &&& !disk.names.contains_key(FileName::Temporary(session.suffix))
        },
        Phase::Ended(Err(StorageError::Document(cause))) => kept(first, disk) && verdict(
            codec,
            codec.encoded,
        ) == Err::<AuthDotJson, AuthJsonError>(cause),
        Phase::Ended(Err(_)) => kept(first, disk) || (replaced(codec, first, disk) && accepted),
        _ => kept(first, disk),
    }
}

proof fn save_step(
    codec: Codec,
    first: Disk,
    session: Session,
    scene: Scene,
    request: Request,
    event: Event,
    later: Scene,
)
    requires
        session.goal == Goal::Save,
        well_formed(session),
        files_invariant(first, session, scene),
        save_invariant(codec, first, session, scene),
        pending(session) == Some(request),
        performed(codec, scene, request, event, later),
    ensures
        save_invariant(codec, first, next(session, event), later),
{
}

/// What holds in each phase of a load.
spec fn load_invariant(codec: Codec, first: Disk, session: Session, scene: Scene) -> bool {
    let disk = scene.disk;
    &&& disk == first
    &&& match session.phase {
        Phase::StatFile => disk.names.contains_key(FileName::Credentials) && scene.hands.open
            == disk.names[FileName::Credentials],
        Phase::Read => scene.hands.open == disk.names[FileName::Credentials] && trusted_at(
            disk,
            FileName::Credentials,
        ),
        Phase::Decode => trusted_at(disk, FileName::Credentials) && stored(disk) == Some(
            scene.hands.buffer,
        ) && !oversized(scene.hands.buffer),
        Phase::Ended(Ok(outcome)) => {
            &&& reported(codec, stored(disk)) == Ok::<Outcome, StorageError>(outcome)
            &&& stored(disk) is Some ==> trusted_at(disk, FileName::Credentials)
        },
        Phase::Ended(Err(StorageError::Document(cause))) => stored(disk) is Some && reported(
            codec,
            stored(disk),
        ) == Err::<Outcome, StorageError>(StorageError::Document(cause)),
        Phase::Ended(Err(StorageError::FileAuthority)) => disk.names.contains_key(
            FileName::Credentials,
        ) && !trusted_at(disk, FileName::Credentials),
        _ => true,
    }
}

proof fn load_step(
    codec: Codec,
    first: Disk,
    session: Session,
    scene: Scene,
    request: Request,
    event: Event,
    later: Scene,
)
    requires
        session.goal == Goal::Load,
        well_formed(session),
        load_invariant(codec, first, session, scene),
        pending(session) == Some(request),
        performed(codec, scene, request, event, later),
    ensures
        load_invariant(codec, first, next(session, event), later),
{
}

/// What holds in each phase of a delete.
spec fn delete_invariant(first: Disk, session: Session, scene: Scene) -> bool {
    let disk = scene.disk;
    match session.phase {
        Phase::SyncDirectory => stored(disk) is None && stored(first) is Some,
        Phase::Ended(Ok(outcome)) => {
            &&& outcome == Outcome::Deleted(stored(first) is Some)
            &&& stored(disk) is None
            &&& stored(first) is Some ==> disk.settled
        },
        Phase::Ended(Err(_)) => stored(disk) is None || kept(first, disk),
        _ => kept(first, disk),
    }
}

proof fn delete_step(
    codec: Codec,
    first: Disk,
    session: Session,
    scene: Scene,
    request: Request,
    event: Event,
    later: Scene,
)
    requires
        session.goal == Goal::Delete,
        well_formed(session),
        files_invariant(first, session, scene),
        delete_invariant(first, session, scene),
        pending(session) == Some(request),
        performed(codec, scene, request, event, later),
    ensures
        delete_invariant(first, next(session, event), later),
{
}

/// What holds in each phase of a transaction.
spec fn transaction_invariant(first: Disk, session: Session, scene: Scene) -> bool {
    &&& kept(first, scene.disk)
    &&& session.phase matches Phase::Ended(Ok(outcome)) ==> outcome == Outcome::Leased
        && session.leased
}

proof fn transaction_step(
    codec: Codec,
    first: Disk,
    session: Session,
    scene: Scene,
    request: Request,
    event: Event,
    later: Scene,
)
    requires
        session.goal == Goal::Transaction,
        well_formed(session),
        files_invariant(first, session, scene),
        transaction_invariant(first, session, scene),
        pending(session) == Some(request),
        performed(codec, scene, request, event, later),
    ensures
        transaction_invariant(first, next(session, event), later),
{
}

/// What holds in each phase of an operation.
spec fn goal_invariant(codec: Codec, first: Disk, session: Session, scene: Scene) -> bool {
    match session.goal {
        Goal::Save => save_invariant(codec, first, session, scene),
        Goal::Load => load_invariant(codec, first, session, scene),
        Goal::Delete => delete_invariant(first, session, scene),
        Goal::Transaction => transaction_invariant(first, session, scene),
    }
}

/// What holds after the first `i` events of a run.
proof fn trail(codec: Codec, run: Run, i: int)
    requires
        run.faithful(codec),
        0 <= i <= run.events.len(),
    ensures
        well_formed(run.session_at(i)),
        run.session_at(i).goal == run.session.goal,
        run.session_at(i).root == run.session.root,
        run.session_at(i).suffix == run.session.suffix,
        files_invariant(run.first_disk(), run.session_at(i), run.scenes[i]),
        directory_invariant(run.session, run.session_at(i), run.scenes[i]),
        lock_invariant(run.session, run.session_at(i), run.scenes[i]),
        goal_invariant(codec, run.first_disk(), run.session_at(i), run.scenes[i]),
    decreases i,
{
    sessions_stay_well_formed(run.session, run.events.take(i));
    let first = run.first_disk();
    if i == 0 {
        assert(run.events.take(0) =~= Seq::empty());
    } else {
        trail(codec, run, i - 1);
        assert(step_performed(run, codec, i - 1));
        after_one_more(run.session, run.events, i - 1);
        let session = run.session_at(i - 1);
        let scene = run.scenes[i - 1];
        let request = pending(session)->0;
        let event = run.events[i - 1];
        let later = run.scenes[i];
        files_step(codec, first, session, scene, request, event, later);
        directory_step(codec, run.session, session, scene, request, event, later);
        lock_step(codec, run.session, session, scene, request, event, later);
        match session.goal {
            Goal::Save => save_step(codec, first, session, scene, request, event, later),
            Goal::Load => load_step(codec, first, session, scene, request, event, later),
            Goal::Delete => delete_step(codec, first, session, scene, request, event, later),
            Goal::Transaction => {
                transaction_step(codec, first, session, scene, request, event, later);
            },
        }
    }
}

/// What holds at the end of a run.
proof fn last_trail(codec: Codec, run: Run)
    requires
        run.faithful(codec),
    ensures
        run.last_session() == run.session_at(run.events.len() as int),
        run.last_scene() == run.scenes[run.events.len() as int],
        well_formed(run.last_session()),
        run.last_session().goal == run.session.goal,
        run.last_session().root == run.session.root,
        run.last_session().suffix == run.session.suffix,
        files_invariant(run.first_disk(), run.last_session(), run.last_scene()),
        directory_invariant(run.session, run.last_session(), run.last_scene()),
        lock_invariant(run.session, run.last_session(), run.last_scene()),
        goal_invariant(codec, run.first_disk(), run.last_session(), run.last_scene()),
{
    assert(run.events.take(run.events.len() as int) =~= run.events);
    trail(codec, run, run.events.len() as int);
}

/// No operation writes to a file that was there before. So whoever had opened the
/// credentials before reads them whole, whatever the operation makes of their name.
pub proof fn open_files_keep_their_contents(codec: Codec, run: Run, i: int, file: nat)
    requires
        run.faithful(codec),
        0 <= i < run.scenes.len(),
        run.first_disk().contents.contains_key(file),
    ensures
        run.disk_at(i).contents.contains_key(file),
        run.disk_at(i).contents[file] == run.first_disk().contents[file],
{
    trail(codec, run, i);
}

/// Whoever opens the credentials at any moment of an operation, and reads them at
/// any later one, reads what they were when they were opened.
pub proof fn opened_credentials_do_not_change(codec: Codec, run: Run, i: int, j: int)
    requires
        run.faithful(codec),
        0 <= i <= j < run.scenes.len(),
        run.disk_at(i).names.contains_key(FileName::Credentials),
    ensures
        ({
            let file = run.disk_at(i).names[FileName::Credentials];
            &&& run.disk_at(j).contents.contains_key(file)
            &&& run.disk_at(j).contents[file] == run.disk_at(i).contents[file]
        }),
{
    settled_trail(codec, run, i, j);
}

proof fn settled_trail(codec: Codec, run: Run, i: int, j: int)
    requires
        run.faithful(codec),
        0 <= i <= j < run.scenes.len(),
        run.disk_at(i).names.contains_key(FileName::Credentials),
    ensures
        ({
            let file = run.disk_at(i).names[FileName::Credentials];
            &&& run.disk_at(j).contents.contains_key(file)
            &&& run.disk_at(j).contents[file] == run.disk_at(i).contents[file]
            &&& writing(run.session_at(j)) ==> run.scenes[j].hands.open != file
        }),
    decreases j - i,
{
    trail(codec, run, j);
    if i < j {
        settled_trail(codec, run, i, j - 1);
        trail(codec, run, j - 1);
        assert(step_performed(run, codec, j - 1));
        after_one_more(run.session, run.events, j - 1);
    }
}

/// No session touches a file other than the credentials, the lock and its own
/// temporary file; nothing is ever written to the lock, and nothing but a save
/// touches a temporary file.
pub proof fn other_files_are_left_alone(codec: Codec, run: Run, i: int)
    requires
        run.faithful(codec),
        0 <= i < run.scenes.len(),
    ensures
        others_kept(run.first_disk(), run.disk_at(i), run.session.suffix),
        lock_unwritten(run.first_disk(), run.disk_at(i)),
        run.session.goal != Goal::Save ==> file_kept(
            run.first_disk(),
            run.disk_at(i),
            FileName::Temporary(run.session.suffix),
        ),
{
    trail(codec, run, i);
}

/// As long as a session has not acquired the lock, the directory holds what it held
/// at first, but for the lock file.
pub proof fn nothing_changes_without_the_lock(codec: Codec, run: Run, i: int)
    requires
        run.faithful(codec),
        0 <= i < run.scenes.len(),
        !run.session_at(i).leased,
    ensures
        kept(run.first_disk(), run.disk_at(i)),
        forall|name: FileName|
            name != FileName::Lock ==> #[trigger] file_kept(
                run.first_disk(),
                run.disk_at(i),
                name,
            ),
    decreases i,
{
    trail(codec, run, i);
    if i > 0 {
        trail(codec, run, i - 1);
        after_one_more(run.session, run.events, i - 1);
        nothing_changes_without_the_lock(codec, run, i - 1);
        assert(step_performed(run, codec, i - 1));
        assert forall|name: FileName| name != FileName::Lock implies #[trigger] file_kept(
            run.first_disk(),
            run.disk_at(i),
            name,
        ) by {
            assert(file_kept(run.first_disk(), run.disk_at(i - 1), name));
        }
    }
}

/// An operation that ends well has opened a directory that may hold shared
/// credentials; under the lock, that of the lease. One that took the lock has
/// inspected the lock file.
pub proof fn successes_are_trusted(codec: Codec, run: Run)
    requires
        run.faithful(codec),
        ended(run.last_session()) matches Some(Ok(_)),
    ensures
        welcoming(run.last_disk(), run.session.root@),
        run.last_session().leased ==> bound(run.last_scene()),
        run.last_session().leased && !run.session.leased ==> trusted_at(
            run.last_disk(),
            FileName::Lock,
        ),
        ended(run.last_session()) == Some(Ok::<Outcome, StorageError>(Outcome::Leased))
            ==> trusted_at(run.last_disk(), FileName::Lock),
{
    last_trail(codec, run);
}

/// At every moment of a save, the credentials are either those that were there
/// before or the new ones: whole, and flushed to disk.
pub proof fn saves_are_atomic(codec: Codec, run: Run, i: int)
    requires
        run.session.goal == Goal::Save,
        run.faithful(codec),
        0 <= i < run.scenes.len(),
    ensures
        kept(run.first_disk(), run.disk_at(i)) || replaced(
            codec,
            run.first_disk(),
            run.disk_at(i),
        ),
{
    trail(codec, run, i);
}

/// A save that ends well has replaced the credentials, durably and under the lock, by
/// what would be accepted if it were loaded, and leaves no temporary file.
pub proof fn saves_replace_the_credentials(codec: Codec, run: Run)
    requires
        run.session.goal == Goal::Save,
        run.faithful(codec),
        ended(run.last_session()) matches Some(Ok(_)),
    ensures
        ended(run.last_session()) == Some(Ok::<Outcome, StorageError>(Outcome::Saved)),
        replaced(codec, run.first_disk(), run.last_disk()),
        run.last_disk().settled,
        !run.last_disk().names.contains_key(FileName::Temporary(run.session.suffix)),
        verdict(codec, codec.encoded) is Ok,
{
    last_trail(codec, run);
}

proof fn refused_trail(codec: Codec, run: Run, i: int)
    requires
        run.session.goal == Goal::Save,
        run.faithful(codec),
        verdict(codec, codec.encoded) is Err,
        0 <= i <= run.events.len(),
    ensures
        file_kept(run.first_disk(), run.disk_at(i), FileName::Temporary(run.session.suffix)),
    decreases i,
{
    trail(codec, run, i);
    if i > 0 {
        refused_trail(codec, run, i - 1);
        trail(codec, run, i - 1);
        assert(step_performed(run, codec, i - 1));
    }
}

/// What would not be accepted is never stored: the credentials stay, no temporary
/// file is made, and the save does not end well.
pub proof fn unacceptable_credentials_are_not_saved(codec: Codec, run: Run, i: int)
    requires
        run.session.goal == Goal::Save,
        run.faithful(codec),
        verdict(codec, codec.encoded) is Err,
        0 <= i < run.scenes.len(),
    ensures
        kept(run.first_disk(), run.disk_at(i)),
        file_kept(run.first_disk(), run.disk_at(i), FileName::Temporary(run.session.suffix)),
        !(ended(run.session_at(i)) matches Some(Ok(_))),
{
    trail(codec, run, i);
    refused_trail(codec, run, i);
}

proof fn unrenamed_trail(codec: Codec, run: Run, i: int)
    requires
        run.session.goal == Goal::Save,
        run.faithful(codec),
        0 <= i <= run.events.len(),
        forall|j: int| 0 <= j <= i ==> !((#[trigger] run.session_at(j)).phase is SyncDirectory),
    ensures
        kept(run.first_disk(), run.disk_at(i)),
    decreases i,
{
    trail(codec, run, i);
    if i > 0 {
        unrenamed_trail(codec, run, i - 1);
        trail(codec, run, i - 1);
        assert(step_performed(run, codec, i - 1));
        after_one_more(run.session, run.events, i - 1);
        assert(!(run.session_at(i).phase is SyncDirectory));
    }
}

/// A save that fails keeps the credentials that were there, unless it had come as
/// far as to flush the directory.
pub proof fn failed_saves_keep_the_credentials(codec: Codec, run: Run)
    requires
        run.session.goal == Goal::Save,
        run.faithful(codec),
        ended(run.last_session()) matches Some(Err(_)),
        forall|j: int|
            0 <= j < run.events.len() ==> !((#[trigger] run.session_at(j)).phase is SyncDirectory),
    ensures
        kept(run.first_disk(), run.last_disk()),
{
    last_trail(codec, run);
    unrenamed_trail(codec, run, run.events.len() as int);
}

/// A save whose writing, flushing or renaming fails leaves the credentials as they
/// were, and no temporary file once that is removed. It reports the failure.
pub proof fn failed_saves_leave_no_trace(codec: Codec, run: Run, i: int, cause: Fault)
    requires
        run.session.goal == Goal::Save,
        run.faithful(codec),
        0 <= i,
        i + 1 < run.events.len(),
        run.session_at(i).phase is Write || run.session_at(i).phase is SyncFile
            || run.session_at(i).phase is Rename,
        run.events[i] == Event::Completed(Err(cause)),
    ensures
        ended(run.session_at(i + 2)) == Some(
            Err::<Outcome, StorageError>(StorageError::System(cause)),
        ),
        kept(run.first_disk(), run.disk_at(i + 2)),
        run.events[i + 1] == Event::Completed(Ok(())) ==> !run.disk_at(i + 2).names.contains_key(
            FileName::Temporary(run.session.suffix),
        ),
{
    trail(codec, run, i);
    trail(codec, run, i + 1);
    assert(step_performed(run, codec, i));
    assert(step_performed(run, codec, i + 1));
    after_one_more(run.session, run.events, i);
    after_one_more(run.session, run.events, i + 1);
}

/// A save of which only the last flush, that of the directory, fails has replaced
/// the credentials, and leaves no temporary file. It reports the failure.
pub proof fn unsettled_saves_have_replaced(codec: Codec, run: Run, i: int, cause: Fault)
    requires
        run.session.goal == Goal::Save,
        run.faithful(codec),
        0 <= i,
        i + 1 < run.events.len(),
        run.session_at(i).phase is SyncDirectory,
        run.events[i] == Event::Completed(Err(cause)),
    ensures
        ended(run.session_at(i + 2)) == Some(
            Err::<Outcome, StorageError>(StorageError::System(cause)),
        ),
        replaced(codec, run.first_disk(), run.disk_at(i + 2)),
        !run.disk_at(i + 2).names.contains_key(FileName::Temporary(run.session.suffix)),
{
    trail(codec, run, i);
    assert(step_performed(run, codec, i));
    assert(step_performed(run, codec, i + 1));
    after_one_more(run.session, run.events, i);
    after_one_more(run.session, run.events, i + 1);
}

/// A load changes nothing. Where it gets as far as to an answer, the answer is
/// nothing if there are no credentials, and otherwise the verdict on them. What it
/// refuses to read is not trusted.
pub proof fn loads_report_the_credentials(codec: Codec, run: Run)
    requires
        run.session.goal == Goal::Load,
        run.faithful(codec),
    ensures
        run.last_disk() == run.first_disk(),
        ended(run.last_session()) matches Some(Ok(outcome)) ==> {
            &&& reported(codec, stored(run.first_disk())) == Ok::<Outcome, StorageError>(outcome)
            &&& stored(run.first_disk()) is Some ==> trusted_at(
                run.first_disk(),
                FileName::Credentials,
            )
        },
        ended(run.last_session()) matches Some(Err(StorageError::Document(cause))) ==> reported(
            codec,
            stored(run.first_disk()),
        ) == Err::<Outcome, StorageError>(StorageError::Document(cause)),
        ended(run.last_session()) == Some(Err::<Outcome, StorageError>(StorageError::FileAuthority))
            ==> stored(run.first_disk()) is Some && !trusted_at(
            run.first_disk(),
            FileName::Credentials,
        ),
{
    last_trail(codec, run);
}

/// At every moment of a delete, the credentials are those that were there before,
/// or gone.
pub proof fn deletes_are_atomic(codec: Codec, run: Run, i: int)
    requires
        run.session.goal == Goal::Delete,
        run.faithful(codec),
        0 <= i < run.scenes.len(),
    ensures
        kept(run.first_disk(), run.disk_at(i)) || stored(run.disk_at(i)) is None,
{
    trail(codec, run, i);
}

/// A delete that ends well leaves no credentials, durably, and says whether
/// there were any.
pub proof fn deletes_remove_the_credentials(codec: Codec, run: Run)
    requires
        run.session.goal == Goal::Delete,
        run.faithful(codec),
        ended(run.last_session()) matches Some(Ok(_)),
    ensures
        ended(run.last_session()) == Some(
            Ok::<Outcome, StorageError>(Outcome::Deleted(stored(run.first_disk()) is Some)),
        ),
        stored(run.last_disk()) is None,
        stored(run.first_disk()) is Some ==> run.last_disk().settled,
{
    last_trail(codec, run);
}

/// A transaction leaves the credentials alone, and one that ends well holds the
/// writer lock.
pub proof fn transactions_take_the_lock(codec: Codec, run: Run)
    requires
        run.session.goal == Goal::Transaction,
        run.faithful(codec),
    ensures
        kept(run.first_disk(), run.last_disk()),
        ended(run.last_session()) matches Some(Ok(outcome)) ==> outcome == Outcome::Leased
            && run.last_session().leased,
{
    last_trail(codec, run);
}

/// In a directory that may hold shared credentials, and under no lease but one on
/// it, no operation is refused for the directory's sake.
pub proof fn welcoming_directories_are_entered(codec: Codec, run: Run, i: int)
    requires
        run.faithful(codec),
        0 <= i < run.scenes.len(),
        welcoming(run.first_disk(), run.session.root@),
        run.session.leased ==> bound(run.scenes[0]),
    ensures
        run.session_at(i).leased ==> bound(run.scenes[i]),
        ended(run.session_at(i)) matches Some(Err(error)) ==> error != StorageError::Route && error
            != StorageError::DirectoryAuthority && error != StorageError::DirectoryChanged && error
            != StorageError::UnsupportedPlatform,
    decreases i,
{
    trail(codec, run, i);
    if i == 0 {
        assert(run.events.take(0) =~= Seq::empty());
    } else {
        welcoming_directories_are_entered(codec, run, i - 1);
        trail(codec, run, i - 1);
        assert(step_performed(run, codec, i - 1));
        after_one_more(run.session, run.events, i - 1);
    }
}

/// A lock file that was there, and was trusted, stays so; and no transaction is
/// refused for its sake.
pub proof fn trusted_locks_are_taken(codec: Codec, run: Run, i: int)
    requires
        run.session.goal == Goal::Transaction,
        run.faithful(codec),
        0 <= i < run.scenes.len(),
        trusted_at(run.first_disk(), FileName::Lock),
    ensures
        trusted_at(run.disk_at(i), FileName::Lock),
        ended(run.session_at(i)) matches Some(Err(error)) ==> error != StorageError::FileAuthority
            && !(error is Document),
    decreases i,
{
    trail(codec, run, i);
    if i == 0 {
        assert(run.events.take(0) =~= Seq::empty());
    } else {
        trusted_locks_are_taken(codec, run, i - 1);
        trail(codec, run, i - 1);
        assert(step_performed(run, codec, i - 1));
        after_one_more(run.session, run.events, i - 1);
    }
}

/// An operation that ends well has worked in a directory of the effective user's own,
/// to which nobody else has any permission, by an absolute path that is a descriptor
/// route or resolves to itself in every component.
pub proof fn successes_are_in_private_directories(codec: Codec, run: Run)
    requires
        run.faithful(codec),
        ended(run.last_session()) matches Some(Ok(_)),
    ensures
        run.last_disk().directory.uid == run.last_disk().euid,
        run.last_disk().directory.mode % 64 == 0,
        run.session.root@.len() > 0 && run.session.root@[0] == 47u8,
        descriptor_route(run.session.root@) || agree(run.last_disk().canonical, run.session.root@),
{
    successes_are_trusted(codec, run);
    trusted_directories_are_private(run.last_disk().directory, run.last_disk().euid);
    same_paths_agree_in_every_component(run.last_disk().canonical, run.session.root@);
}

/// A load that ends with credentials has read them, all of them, from a regular file
/// of the effective user's own, whoever that is, to which nobody else has any
/// permission and no second link leads; and it gives out what their bytes parse to.
pub proof fn loaded_credentials_are_ones_own(codec: Codec, run: Run, auth: AuthDotJson)
    requires
        run.session.goal == Goal::Load,
        run.faithful(codec),
        ended(run.last_session()) == Some(Ok::<Outcome, StorageError>(Outcome::Loaded(Some(auth)))),
    ensures
        ({
            let disk = run.first_disk();
            let file = disk.names[FileName::Credentials];
            &&& disk.names.contains_key(FileName::Credentials)
            &&& disk.metadata[file].is_file
            &&& disk.metadata[file].uid == disk.euid
            &&& disk.metadata[file].mode % 64 == 0
            &&& disk.metadata[file].nlink == 1
            &&& disk.contents[file].len() <= 1_048_576
            &&& (codec.decode)(disk.contents[file]) == Some(auth)
        }),
{
    loads_report_the_credentials(codec, run);
    let disk = run.first_disk();
    trusted_files_are_private(disk.metadata[disk.names[FileName::Credentials]], disk.euid);
}

/// A load of a document that is accepted, from such a file, ends with it or with an
/// error of another kind: it is refused neither for the document nor for its file, and
/// not overlooked.
pub proof fn acceptable_credentials_are_loaded(codec: Codec, run: Run, auth: AuthDotJson)
    requires
        run.session.goal == Goal::Load,
        run.faithful(codec),
        run.first_disk().names.contains_key(FileName::Credentials),
        ({
            let disk = run.first_disk();
            let file = disk.names[FileName::Credentials];
            &&& disk.metadata[file].is_file
            &&& disk.metadata[file].uid == disk.euid
            &&& disk.metadata[file].mode % 64 == 0
            &&& disk.metadata[file].nlink == 1
            &&& disk.contents[file].len() <= 1_048_576
            &&& (codec.decode)(disk.contents[file]) == Some(auth)
        }),
        judged(Some(auth)) == Ok::<AuthDotJson, AuthJsonError>(auth),
    ensures
        ended(run.last_session()) matches Some(Ok(outcome)) ==> outcome == Outcome::Loaded(
            Some(auth),
        ),
        ended(run.last_session()) matches Some(Err(error)) ==> !(error is Document) && error
            != StorageError::FileAuthority,
{
    loads_report_the_credentials(codec, run);
    let disk = run.first_disk();
    trusted_files_are_private(disk.metadata[disk.names[FileName::Credentials]], disk.euid);
}

/// A save is refused for the document only if that, as it was encoded, is too large,
/// does not parse or is not accepted; so nothing that a load would accept is refused.
pub proof fn saves_are_refused_for_cause(codec: Codec, run: Run, cause: AuthJsonError)
    requires
        run.session.goal == Goal::Save,
        run.faithful(codec),
        ended(run.last_session()) == Some(
            Err::<Outcome, StorageError>(StorageError::Document(cause)),
        ),
    ensures
        match cause {
            AuthJsonError::TooLarge => codec.encoded.len() > 1_048_576,
            AuthJsonError::Invalid => (codec.decode)(codec.encoded) is None,
            AuthJsonError::Unusable => (codec.decode)(codec.encoded) matches Some(auth) && judged(
                Some(auth),
            ) is Err,
        },
        kept(run.first_disk(), run.last_disk()),
{
    last_trail(codec, run);
}

} // verus!
