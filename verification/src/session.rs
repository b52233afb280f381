//! One operation on the shared credential directory, as a session that asks for
//! one system call after the other and is told how each went.
//!
//! A session keeps no handles. Whoever runs it holds the directory that was
//! opened last, the file that was opened last, the bytes that were read or
//! encoded last, and the lease: once the lock is acquired, the directory and
//! the lock file that are open at that moment are the lease.

use crate::credentials::{
    is_oversized, judge, judged, oversized, read_limit, AuthDotJson, AuthJsonError,
    MAX_AUTH_JSON_BYTES,
};
use crate::error::{Fault, FaultKind, StorageError};
use crate::names::FileName;
use crate::path::{
    absolute, descriptor_route, is_absolute, is_descriptor_route, same, same_path,
};
use vstd::prelude::*;

verus! {

/// How long a writer waits for the lock, in nanoseconds: thirty seconds.
pub const LOCK_WAIT_NANOS: u64 = 30_000_000_000;

/// How long a writer sleeps between two attempts at the lock, in milliseconds.
pub const LOCK_RETRY_MILLIS: u64 = 20;

/// The permission bits of the group and of others.
pub const FOREIGN_BITS: u32 = 0o077;

/// Readable and writable by the owner alone.
pub const PRIVATE_FILE: u32 = 0o600;

/// What a session is for.
#[derive(Clone, Copy, Debug, PartialEq, Eq, Structural)]
pub enum Goal {
    Load,
    Transaction,
    Save,
    Delete,
}

/// How a file is accessed.
#[derive(Clone, Copy, Debug, PartialEq, Eq, Structural)]
pub enum Access {
    Read,
    Write,
    ReadWrite,
}

/// How a file or directory is opened.
#[derive(Clone, Copy, Debug, PartialEq, Eq, Structural)]
pub struct OpenFlags {
    pub access: Access,
    /// Fail unless it is a directory.
    pub directory: bool,
    /// Create the file if there is none.
    pub create: bool,
    /// With `create`: fail if there is a file already.
    pub exclusive: bool,
    /// Fail if the last component is a symlink.
    pub no_follow: bool,
    /// Do not hand the descriptor to programs that are executed.
    pub close_on_exec: bool,
    /// Do not block on a file that is not a regular one.
    pub non_blocking: bool,
}

/// What is known of an open file or directory.
#[derive(Clone, Copy, Debug, PartialEq, Eq, Structural)]
pub struct Metadata {
    pub is_file: bool,
    pub uid: u32,
    pub mode: u32,
    pub nlink: u64,
    pub dev: u64,
    pub ino: u64,
}

/// A system call, or a piece of work on bytes, that a session asks for.
#[derive(Clone, Copy, Debug, PartialEq, Eq, Structural)]
pub enum Request {
    /// Resolve the path of the directory. Answer: `Path`.
    Canonicalize,
    /// Open the path of the directory. Answer: `Completed`.
    OpenRoot { flags: OpenFlags, permissions: u32 },
    /// Inspect the directory just opened. Answer: `Stat`.
    StatDirectory,
    /// Inspect the directory of the lease. Answer: `Stat`.
    StatLease,
    /// Open a file in the directory. Answer: `Completed`.
    OpenFile { name: FileName, flags: OpenFlags, permissions: u32 },
    /// Inspect the file just opened. Answer: `Stat`.
    StatFile,
    /// Read a steady clock, in nanoseconds. Answer: `Clock`.
    ReadClock,
    /// Try to lock the file just opened. Answer: `Lock`.
    TryLock,
    /// Sleep. Answer: `Slept`.
    Sleep { millis: u64 },
    /// Read the file, up to a number of bytes. Answer: `Bytes`.
    Read { limit: u64 },
    /// Encode the credentials to be saved. Answer: `Bytes`.
    Encode,
    /// Parse the bytes last read or encoded. Answer: `Decoded`.
    Decode,
    /// Write the encoded bytes to the file. Answer: `Completed`.
    Write,
    /// Flush the file to disk. Answer: `Completed`.
    SyncFile,
    /// Rename a file within the directory. Answer: `Completed`.
    Rename { from: FileName, to: FileName },
    /// Flush the directory to disk. Answer: `Completed`.
    SyncDirectory,
    /// Remove a file from the directory. Answer: `Completed`.
    Unlink { name: FileName },
}

/// How an attempt at the lock went.
#[derive(Clone, Copy, Debug, PartialEq, Eq, Structural)]
pub enum LockReply {
    Acquired,
    /// Somebody else holds the lock; `now` is the clock after the attempt.
    Busy { now: u64 },
    Failed(Fault),
}

/// The answer to a request.
pub enum Event {
    Path(Result<Vec<u8>, Fault>),
    Completed(Result<(), Fault>),
    /// What was found, and the effective user at that moment.
    Stat { metadata: Result<Metadata, Fault>, euid: u32 },
    Clock(u64),
    Lock(LockReply),
    Slept,
    Bytes(Result<Vec<u8>, Fault>),
    Decoded(Option<AuthDotJson>),
}

/// What an operation achieved.
#[derive(Clone, Debug, PartialEq, Eq)]
pub enum Outcome {
    /// The stored credentials, if there are any.
    Loaded(Option<AuthDotJson>),
    /// The writer lock is held.
    Leased,
    /// The credentials were replaced.
    Saved,
    /// Whether there were credentials to remove.
    Deleted(bool),
}

/// Where a session stands: what it waits for, or how it ended.
pub enum Phase {
    Canonicalize,
    OpenRoot,
    StatDirectory,
    StatLease { dev: u64, ino: u64 },
    OpenFile,
    StatFile,
    ReadClock,
    TryLock { start: u64 },
    Wait { start: u64 },
    Read,
    Encode,
    Decode,
    Write,
    SyncFile,
    Rename,
    SyncDirectory,
    /// Remove the temporary file after `cause`.
    Discard { cause: Fault },
    Unlink,
    Ended(Result<Outcome, StorageError>),
}

/// One operation under way.
pub struct Session {
    pub goal: Goal,
    /// The path of the directory.
    pub root: Vec<u8>,
    /// Whether the writer lock is held.
    pub leased: bool,
    /// The suffix of the temporary file, should one be written.
    pub suffix: u64,
    pub phase: Phase,
}

/// A mode that gives nothing to the group and to others.
pub open spec fn private_mode(mode: u32) -> bool {
    mode & FOREIGN_BITS == 0
}

/// A directory that may hold shared credentials: one's own, and private.
pub open spec fn trusted_directory(metadata: Metadata, euid: u32) -> bool {
    metadata.uid == euid && private_mode(metadata.mode)
}

/// A file that may hold credentials or the lock: a regular file, one's own,
/// private, and with no second name.
pub open spec fn trusted_file(metadata: Metadata, euid: u32) -> bool {
    metadata.is_file && metadata.uid == euid && private_mode(metadata.mode) && metadata.nlink == 1
}

/// How the directory is opened. Only a descriptor route may end in a symlink.
pub open spec fn root_flags(root: Seq<u8>) -> OpenFlags {
    OpenFlags {
        access: Access::Read,
        directory: true,
        create: false,
        exclusive: false,
        no_follow: !descriptor_route(root),
        close_on_exec: true,
        non_blocking: false,
    }
}

/// How a file in the directory is opened.
pub open spec fn file_flags(access: Access, create: bool, exclusive: bool) -> OpenFlags {
    OpenFlags {
        access,
        directory: false,
        create,
        exclusive,
        no_follow: true,
        close_on_exec: true,
        non_blocking: true,
    }
}

/// The first phase on the way to the directory at `root`.
pub open spec fn route(root: Seq<u8>) -> Phase {
    if !absolute(root) {
        Phase::Ended(Err(StorageError::Route))
    } else if descriptor_route(root) {
        Phase::OpenRoot
    } else {
        Phase::Canonicalize
    }
}

/// Whether the session is on its way to the writer lock.
pub open spec fn locking(goal: Goal, leased: bool) -> bool {
    match goal {
        Goal::Load => false,
        Goal::Transaction => true,
        Goal::Save | Goal::Delete => !leased,
    }
}

/// What follows once the directory is trusted.
pub open spec fn admitted(goal: Goal, leased: bool) -> Phase {
    if locking(goal, leased) || goal == Goal::Load {
        Phase::OpenFile
    } else if goal == Goal::Delete {
        Phase::Unlink
    } else {
        Phase::Encode
    }
}

/// The file that the session opens.
pub open spec fn target(goal: Goal, leased: bool, suffix: u64) -> FileName {
    if locking(goal, leased) {
        FileName::Lock
    } else if goal == Goal::Load {
        FileName::Credentials
    } else {
        FileName::Temporary(suffix)
    }
}

/// How the session opens that file.
pub open spec fn target_flags(goal: Goal, leased: bool) -> OpenFlags {
    if locking(goal, leased) {
        file_flags(Access::ReadWrite, true, false)
    } else if goal == Goal::Load {
        file_flags(Access::Read, false, false)
    } else {
        file_flags(Access::Write, true, true)
    }
}

/// What follows once the file is open and trusted.
pub open spec fn file_ready(goal: Goal, leased: bool) -> Phase {
    if locking(goal, leased) {
        Phase::ReadClock
    } else if goal == Goal::Load {
        Phase::Read
    } else {
        Phase::Write
    }
}

/// The end of a session whose system call failed.
pub open spec fn failed(fault: Fault) -> Phase {
    Phase::Ended(Err(StorageError::System(fault)))
}

/// What follows a failure to open or inspect the file. To load nothing where
/// there is nothing is no failure.
pub open spec fn file_failed(goal: Goal, fault: Fault) -> Phase {
    if goal == Goal::Load && fault.kind == FaultKind::NotFound {
        Phase::Ended(Ok(Outcome::Loaded(None)))
    } else {
        failed(fault)
    }
}

/// Whether a writer that started to wait at `start` waits on at `now`.
pub open spec fn in_time(start: u64, now: u64) -> bool {
    now - start < LOCK_WAIT_NANOS
}

/// The phase that follows `session`'s once `event` is its answer. An event that
/// does not answer the pending request changes nothing.
pub open spec fn next_phase(session: Session, event: Event) -> Phase {
    let goal = session.goal;
    let leased = session.leased;
    match (session.phase, event) {
        (Phase::Canonicalize, Event::Path(Ok(resolved))) => if same(resolved@, session.root@) {
            Phase::OpenRoot
        } else {
            Phase::Ended(Err(StorageError::Route))
        },
        (Phase::Canonicalize, Event::Path(Err(fault))) => failed(fault),
        (Phase::OpenRoot, Event::Completed(Ok(_))) => Phase::StatDirectory,
        (Phase::OpenRoot, Event::Completed(Err(fault))) => failed(fault),
        (Phase::StatDirectory, Event::Stat { metadata: Ok(found), euid }) => if !trusted_directory(
            found,
            euid,
        ) {
            Phase::Ended(Err(StorageError::DirectoryAuthority))
        } else if leased {
            Phase::StatLease { dev: found.dev, ino: found.ino }
        } else {
            admitted(goal, leased)
        },
        (Phase::StatDirectory, Event::Stat { metadata: Err(fault), .. }) => failed(fault),
        (Phase::StatLease { dev, ino }, Event::Stat { metadata: Ok(held), .. }) => if held.dev
            == dev && held.ino == ino {
            admitted(goal, leased)
        } else {
            Phase::Ended(Err(StorageError::DirectoryChanged))
        },
        (Phase::StatLease { .. }, Event::Stat { metadata: Err(fault), .. }) => failed(fault),
        (Phase::OpenFile, Event::Completed(Ok(_))) => Phase::StatFile,
        (Phase::OpenFile, Event::Completed(Err(fault))) => file_failed(goal, fault),
        (Phase::StatFile, Event::Stat { metadata: Ok(found), euid }) => if trusted_file(
            found,
            euid,
        ) {
            file_ready(goal, leased)
        } else {
            Phase::Ended(Err(StorageError::FileAuthority))
        },
        (Phase::StatFile, Event::Stat { metadata: Err(fault), .. }) => file_failed(goal, fault),
        (Phase::ReadClock, Event::Clock(now)) => Phase::TryLock { start: now },
        (Phase::TryLock { .. }, Event::Lock(LockReply::Acquired)) => if goal == Goal::Transaction {
            Phase::Ended(Ok(Outcome::Leased))
        } else {
            route(session.root@)
        },
        (Phase::TryLock { start }, Event::Lock(LockReply::Busy { now })) => if in_time(start, now) {
            Phase::Wait { start }
        } else {
            Phase::Ended(Err(StorageError::LockTimedOut))
        },
        (Phase::TryLock { .. }, Event::Lock(LockReply::Failed(fault))) => failed(fault),
        (Phase::Wait { start }, Event::Slept) => Phase::TryLock { start },
        (Phase::Read, Event::Bytes(Ok(bytes))) | (Phase::Encode, Event::Bytes(Ok(bytes))) =>
        if oversized(bytes@) {
            Phase::Ended(
                Err(StorageError::Document(AuthJsonError::TooLarge)),
            )
        } else {
            Phase::Decode
        },
        (Phase::Read, Event::Bytes(Err(fault))) | (Phase::Encode, Event::Bytes(Err(fault))) =>
        failed(fault),
        (Phase::Decode, Event::Decoded(parsed)) => match judged(parsed) {
            Err(cause) => Phase::Ended(Err(StorageError::Document(cause))),
            Ok(auth) => if goal == Goal::Load {
                Phase::Ended(Ok(Outcome::Loaded(Some(auth))))
            } else {
                Phase::OpenFile
            },
        },
        (Phase::Write, Event::Completed(Ok(_))) => Phase::SyncFile,
        (Phase::Write, Event::Completed(Err(cause))) => Phase::Discard { cause },
        (Phase::SyncFile, Event::Completed(Ok(_))) => Phase::Rename,
        (Phase::SyncFile, Event::Completed(Err(cause))) => Phase::Discard { cause },
        (Phase::Rename, Event::Completed(Ok(_))) => Phase::SyncDirectory,
        (Phase::Rename, Event::Completed(Err(cause))) => Phase::Discard { cause },
        (Phase::SyncDirectory, Event::Completed(Ok(_))) => if goal == Goal::Delete {
            Phase::Ended(Ok(Outcome::Deleted(true)))
        } else {
            Phase::Ended(Ok(Outcome::Saved))
        },
        (Phase::SyncDirectory, Event::Completed(Err(cause))) => if goal == Goal::Delete {
            failed(cause)
        } else {
            Phase::Discard { cause }
        },
        (Phase::Discard { cause }, Event::Completed(_)) => failed(cause),
        (Phase::Unlink, Event::Completed(Ok(_))) => Phase::SyncDirectory,
        (Phase::Unlink, Event::Completed(Err(fault))) => if fault.kind == FaultKind::NotFound {
            Phase::Ended(Ok(Outcome::Deleted(false)))
        } else {
            failed(fault)
        },
        (phase, _) => phase,
    }
}

/// Whether an event acquires the writer lock for `session`.
pub open spec fn acquires(session: Session, event: Event) -> bool {
    session.phase is TryLock && event == Event::Lock(LockReply::Acquired)
}

/// The session after an event.
pub open spec fn next(session: Session, event: Event) -> Session {
    Session {
        goal: session.goal,
        root: session.root,
        leased: session.leased || acquires(session, event),
        suffix: session.suffix,
        phase: next_phase(session, event),
    }
}

/// How a session ended, if it has.
pub open spec fn ended(session: Session) -> Option<Result<Outcome, StorageError>> {
    match session.phase {
        Phase::Ended(result) => Some(result),
        _ => None,
    }
}

/// What a session asks for; nothing, once it has ended.
pub open spec fn pending(session: Session) -> Option<Request> {
    match session.phase {
        Phase::Canonicalize => Some(Request::Canonicalize),
        Phase::OpenRoot => Some(
            Request::OpenRoot { flags: root_flags(session.root@), permissions: 0 },
        ),
        Phase::StatDirectory => Some(Request::StatDirectory),
        Phase::StatLease { .. } => Some(Request::StatLease),
        Phase::OpenFile => Some(
            Request::OpenFile {
                name: target(session.goal, session.leased, session.suffix),
                flags: target_flags(session.goal, session.leased),
                permissions: PRIVATE_FILE,
            },
        ),
        Phase::StatFile => Some(Request::StatFile),
        Phase::ReadClock => Some(Request::ReadClock),
        Phase::TryLock { .. } => Some(Request::TryLock),
        Phase::Wait { .. } => Some(Request::Sleep { millis: LOCK_RETRY_MILLIS }),
        Phase::Read => Some(Request::Read { limit: (MAX_AUTH_JSON_BYTES + 1) as u64 }),
        Phase::Encode => Some(Request::Encode),
        Phase::Decode => Some(Request::Decode),
        Phase::Write => Some(Request::Write),
        Phase::SyncFile => Some(Request::SyncFile),
        Phase::Rename => Some(
            Request::Rename {
                from: FileName::Temporary(session.suffix),
                to: FileName::Credentials,
            },
        ),
        Phase::SyncDirectory => Some(Request::SyncDirectory),
        Phase::Discard { .. } => Some(
            Request::Unlink { name: FileName::Temporary(session.suffix) },
        ),
        Phase::Unlink => Some(Request::Unlink { name: FileName::Credentials }),
        Phase::Ended(_) => None,
    }
}

/// Whether a mode gives nothing to the group and to others.
pub fn is_private_mode(mode: u32) -> (result: bool)
    ensures
        result == private_mode(mode),
{
    mode & FOREIGN_BITS == 0
}

/// Whether a directory is one's own and private.
pub fn is_trusted_directory(metadata: &Metadata, euid: u32) -> (result: bool)
    ensures
        result == trusted_directory(*metadata, euid),
{
    metadata.uid == euid && is_private_mode(metadata.mode)
}

/// Whether a file is a private regular file of one's own with a single name.
pub fn is_trusted_file(metadata: &Metadata, euid: u32) -> (result: bool)
    ensures
        result == trusted_file(*metadata, euid),
{
    metadata.is_file && metadata.uid == euid && is_private_mode(metadata.mode) && metadata.nlink
        == 1
}

/// The first phase on the way to the directory at `root`.
pub fn first_phase(root: &[u8]) -> (phase: Phase)
    ensures
        phase == route(root@),
{
    if !is_absolute(root) {
        Phase::Ended(Err(StorageError::Route))
    } else if is_descriptor_route(root) {
        Phase::OpenRoot
    } else {
        Phase::Canonicalize
    }
}

fn file_failure(goal: Goal, fault: Fault) -> (phase: Phase)
    ensures
        phase == file_failed(goal, fault),
{
    if goal == Goal::Load && fault.kind == FaultKind::NotFound {
        Phase::Ended(Ok(Outcome::Loaded(None)))
    } else {
        Phase::Ended(Err(StorageError::System(fault)))
    }
}

impl Session {
    /// A session on the directory at `root`.
    pub fn start(goal: Goal, root: Vec<u8>, leased: bool, suffix: u64) -> (session: Session)
        ensures
            session == (Session { goal, root, leased, suffix, phase: route(root@) }),
    {
        let phase: Phase = first_phase(root.as_slice());
        Session { goal, root, leased, suffix, phase }
    }

    /// A session that has ended before it began.
    pub fn refused(goal: Goal, root: Vec<u8>, leased: bool, suffix: u64, cause: StorageError)
        -> (session: Session)
        ensures
            session == (Session { goal, root, leased, suffix, phase: Phase::Ended(Err(cause)) }),
    {
        Session { goal, root, leased, suffix, phase: Phase::Ended(Err(cause)) }
    }

    fn is_locking(&self) -> (result: bool)
        ensures
            result == locking(self.goal, self.leased),
    {
        match self.goal {
            Goal::Load => false,
            Goal::Transaction => true,
            Goal::Save | Goal::Delete => !self.leased,
        }
    }

    fn after_admission(&self) -> (phase: Phase)
        ensures
            phase == admitted(self.goal, self.leased),
    {
        if self.is_locking() || self.goal == Goal::Load {
            Phase::OpenFile
        } else if self.goal == Goal::Delete {
            Phase::Unlink
        } else {
            Phase::Encode
        }
    }

    fn after_file(&self) -> (phase: Phase)
        ensures
            phase == file_ready(self.goal, self.leased),
    {
        if self.is_locking() {
            Phase::ReadClock
        } else if self.goal == Goal::Load {
            Phase::Read
        } else {
            Phase::Write
        }
    }

    fn open_file(&self) -> (request: Request)
        ensures
            request == (Request::OpenFile {
                name: target(self.goal, self.leased, self.suffix),
                flags: target_flags(self.goal, self.leased),
                permissions: PRIVATE_FILE,
            }),
    {
        let (name, access, create, exclusive) = if self.is_locking() {
            (FileName::Lock, Access::ReadWrite, true, false)
        } else if self.goal == Goal::Load {
            (FileName::Credentials, Access::Read, false, false)
        } else {
            (FileName::Temporary(self.suffix), Access::Write, true, true)
        };
        Request::OpenFile {
            name,
            flags: OpenFlags {
                access,
                directory: false,
                create,
                exclusive,
                no_follow: true,
                close_on_exec: true,
                non_blocking: true,
            },
            permissions: PRIVATE_FILE,
        }
    }

    /// What the session asks for; nothing, once it has ended.
    pub fn request(&self) -> (request: Option<Request>)
        ensures
            request == pending(*self),
    {
        match self.phase {
            Phase::Canonicalize => Some(Request::Canonicalize),
            Phase::OpenRoot => Some(
                Request::OpenRoot {
                    flags: OpenFlags {
                        access: Access::Read,
                        directory: true,
                        create: false,
                        exclusive: false,
                        no_follow: !is_descriptor_route(self.root.as_slice()),
                        close_on_exec: true,
                        non_blocking: false,
                    },
                    permissions: 0,
                },
            ),
            Phase::StatDirectory => Some(Request::StatDirectory),
            Phase::StatLease { .. } => Some(Request::StatLease),
            Phase::OpenFile => Some(self.open_file()),
            Phase::StatFile => Some(Request::StatFile),
            Phase::ReadClock => Some(Request::ReadClock),
            Phase::TryLock { .. } => Some(Request::TryLock),
            Phase::Wait { .. } => Some(Request::Sleep { millis: LOCK_RETRY_MILLIS }),
            Phase::Read => Some(Request::Read { limit: read_limit() }),
            Phase::Encode => Some(Request::Encode),
            Phase::Decode => Some(Request::Decode),
            Phase::Write => Some(Request::Write),
            Phase::SyncFile => Some(Request::SyncFile),
            Phase::Rename => Some(
                Request::Rename {
                    from: FileName::Temporary(self.suffix),
                    to: FileName::Credentials,
                },
            ),
            Phase::SyncDirectory => Some(Request::SyncDirectory),
            Phase::Discard { .. } => Some(
                Request::Unlink { name: FileName::Temporary(self.suffix) },
            ),
            Phase::Unlink => Some(Request::Unlink { name: FileName::Credentials }),
            Phase::Ended(_) => None,
        }
    }

    /// Takes the answer to the pending request. An event that does not answer it
    /// changes nothing.
    pub fn step(self, event: Event) -> (after: Session)
        ensures
            after == next(self, event),
    {
        let admission: Phase = self.after_admission();
        let ready: Phase = self.after_file();
        let Session { goal, root, leased, suffix, phase } = self;
        let mut held: bool = leased;
        let following: Phase = match (phase, event) {
            (Phase::Canonicalize, Event::Path(Ok(resolved))) => if same_path(
                resolved.as_slice(),
                root.as_slice(),
            ) {
                Phase::OpenRoot
            } else {
                Phase::Ended(Err(StorageError::Route))
            },
            (Phase::OpenRoot, Event::Completed(Ok(_))) => Phase::StatDirectory,
            (Phase::StatDirectory, Event::Stat { metadata: Ok(found), euid }) =>
            if !is_trusted_directory(&found, euid) {
                Phase::Ended(Err(StorageError::DirectoryAuthority))
            } else if leased {
                Phase::StatLease { dev: found.dev, ino: found.ino }
            } else {
                admission
            },
            (Phase::StatLease { dev, ino }, Event::Stat { metadata: Ok(found), .. }) =>
            if found.dev == dev && found.ino == ino {
                admission
            } else {
                Phase::Ended(Err(StorageError::DirectoryChanged))
            },
            (Phase::Canonicalize, Event::Path(Err(fault)))
            | (Phase::OpenRoot, Event::Completed(Err(fault)))
            | (Phase::StatDirectory, Event::Stat { metadata: Err(fault), .. })
            | (Phase::StatLease { .. }, Event::Stat { metadata: Err(fault), .. })
            | (Phase::TryLock { .. }, Event::Lock(LockReply::Failed(fault)))
            | (Phase::Read, Event::Bytes(Err(fault)))
            | (Phase::Encode, Event::Bytes(Err(fault))) => Phase::Ended(
                Err(StorageError::System(fault)),
            ),
            (Phase::OpenFile, Event::Completed(Ok(_))) => Phase::StatFile,
            (Phase::StatFile, Event::Stat { metadata: Ok(found), euid }) => if is_trusted_file(
                &found,
                euid,
            ) {
                ready
            } else {
                Phase::Ended(Err(StorageError::FileAuthority))
            },
            (Phase::OpenFile, Event::Completed(Err(fault)))
            | (Phase::StatFile, Event::Stat { metadata: Err(fault), .. }) => file_failure(
                goal,
                fault,
            ),
            (Phase::ReadClock, Event::Clock(now)) => Phase::TryLock { start: now },
            (Phase::TryLock { .. }, Event::Lock(LockReply::Acquired)) => {
                held = true;
                if goal == Goal::Transaction {
                    Phase::Ended(Ok(Outcome::Leased))
                } else {
                    first_phase(root.as_slice())
                }
            },
            (Phase::TryLock { start }, Event::Lock(LockReply::Busy { now })) => if now < start
                || now - start < LOCK_WAIT_NANOS {
                Phase::Wait { start }
            } else {
                Phase::Ended(Err(StorageError::LockTimedOut))
            },
            (Phase::Wait { start }, Event::Slept) => Phase::TryLock { start },
            (Phase::Read, Event::Bytes(Ok(bytes))) | (Phase::Encode, Event::Bytes(Ok(bytes))) =>
            if is_oversized(bytes.as_slice()) {
                Phase::Ended(Err(StorageError::Document(AuthJsonError::TooLarge)))
            } else {
                Phase::Decode
            },
            (Phase::Decode, Event::Decoded(parsed)) => match judge(parsed) {
                Err(cause) => Phase::Ended(Err(StorageError::Document(cause))),
                Ok(auth) => if goal == Goal::Load {
                    Phase::Ended(Ok(Outcome::Loaded(Some(auth))))
                } else {
                    Phase::OpenFile
                },
            },
            (Phase::Write, Event::Completed(Ok(_))) => Phase::SyncFile,
            (Phase::SyncFile, Event::Completed(Ok(_))) => Phase::Rename,
            (Phase::Rename, Event::Completed(Ok(_))) => Phase::SyncDirectory,
            (Phase::Write, Event::Completed(Err(cause)))
            | (Phase::SyncFile, Event::Completed(Err(cause)))
            | (Phase::Rename, Event::Completed(Err(cause))) => Phase::Discard { cause },
            (Phase::SyncDirectory, Event::Completed(Ok(_))) => if goal == Goal::Delete {
                Phase::Ended(Ok(Outcome::Deleted(true)))
            } else {
                Phase::Ended(Ok(Outcome::Saved))
            },
            (Phase::SyncDirectory, Event::Completed(Err(cause))) => if goal == Goal::Delete {
                Phase::Ended(Err(StorageError::System(cause)))
            } else {
                Phase::Discard { cause }
            },
            (Phase::Discard { cause }, Event::Completed(_)) => Phase::Ended(
                Err(StorageError::System(cause)),
            ),
            (Phase::Unlink, Event::Completed(Ok(_))) => Phase::SyncDirectory,
            (Phase::Unlink, Event::Completed(Err(fault))) => if fault.kind == FaultKind::NotFound {
                Phase::Ended(Ok(Outcome::Deleted(false)))
            } else {
                Phase::Ended(Err(StorageError::System(fault)))
            },
            (other, _) => other,
        };
        Session { goal, root, leased: held, suffix, phase: following }
    }

    /// How the session ended, if it has.
    pub fn into_result(self) -> (result: Option<Result<Outcome, StorageError>>)
        ensures
            result == ended(self),
    {
        match self.phase {
            Phase::Ended(result) => Some(result),
            _ => None,
        }
    }
}

} // verus!
