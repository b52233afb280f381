//! A model of the shared credential directory and of the calls that sessions ask
//! for.
//!
//! A name leads to a file, and whoever has opened a file keeps it, whatever becomes
//! of its name. A call that succeeds has done what it says, and one that fails has
//! done nothing, except that a failed write may leave any bytes in the file written
//! to. What a call finds out about a file or directory is what the model holds of it.

use crate::credentials::{judged, oversized, AuthDotJson, AuthJsonError};
use crate::error::{FaultKind, StorageError};
use crate::laws::{after, answers, fresh};
use crate::names::FileName;
use crate::path::{absolute, descriptor_route, same};
use crate::session::{
    pending, trusted_directory, trusted_file, Event, LockReply, Metadata, Outcome, Request, Session,
};
use vstd::prelude::*;

verus! {

/// The directory as every process sees it. Files go by numbers.
pub struct Disk {
    /// The files that the names lead to.
    pub names: Map<FileName, nat>,
    /// What the files hold.
    pub contents: Map<nat, Seq<u8>>,
    /// The files whose contents would survive a crash.
    pub flushed: Set<nat>,
    /// Whether the names in the directory would survive a crash.
    pub settled: bool,
    /// What is known of the files.
    pub metadata: Map<nat, Metadata>,
    /// What is known of the directory.
    pub directory: Metadata,
    /// What the path of the directory resolves to.
    pub canonical: Seq<u8>,
    /// The effective user.
    pub euid: u32,
}

/// What whoever runs a session has at hand.
pub struct Hands {
    /// The file opened last.
    pub open: nat,
    /// The bytes last read or encoded.
    pub buffer: Seq<u8>,
    /// The directory of the lease, if there is one.
    pub lease: Metadata,
}

/// A moment of a session.
pub struct Scene {
    pub disk: Disk,
    pub hands: Hands,
}

/// How credentials become bytes and bytes credentials.
pub struct Codec {
    /// The encoding of the credentials that a save is to store.
    pub encoded: Seq<u8>,
    /// What bytes parse to.
    pub decode: spec_fn(Seq<u8>) -> Option<AuthDotJson>,
}

/// Every name leads to a file, and a file with a single link has a single name.
pub open spec fn sound(disk: Disk) -> bool {
    &&& forall|name: FileName| #[trigger]
        disk.names.contains_key(name) ==> disk.contents.contains_key(disk.names[name])
    &&& forall|a: FileName, b: FileName|
        #![trigger disk.names.contains_key(a), disk.names.contains_key(b)]
        disk.names.contains_key(a) && disk.names.contains_key(b) && disk.names[a] == disk.names[b]
            && disk.metadata[disk.names[a]].nlink == 1 ==> a == b
}

/// The stored credentials, as bytes.
pub open spec fn stored(disk: Disk) -> Option<Seq<u8>> {
    if disk.names.contains_key(FileName::Credentials) {
        Some(disk.contents[disk.names[FileName::Credentials]])
    } else {
        None
    }
}

/// Whether a name leads to a file that may hold credentials or the lock.
pub open spec fn trusted_at(disk: Disk, name: FileName) -> bool {
    disk.names.contains_key(name) && trusted_file(disk.metadata[disk.names[name]], disk.euid)
}

/// Whether the directory at `root` may hold shared credentials.
pub open spec fn welcoming(disk: Disk, root: Seq<u8>) -> bool {
    &&& absolute(root)
    &&& descriptor_route(root) || same(disk.canonical, root)
    &&& trusted_directory(disk.directory, disk.euid)
}

/// Whether the lease at hand is one on this directory.
pub open spec fn bound(scene: Scene) -> bool {
    scene.hands.lease.dev == scene.disk.directory.dev && scene.hands.lease.ino
        == scene.disk.directory.ino
}

/// The verdict on a stored document.
pub open spec fn verdict(codec: Codec, document: Seq<u8>) -> Result<AuthDotJson, AuthJsonError> {
    if oversized(document) {
        Err(AuthJsonError::TooLarge)
    } else {
        judged((codec.decode)(document))
    }
}

/// What a load of a stored document, or of none, answers.
pub open spec fn reported(codec: Codec, document: Option<Seq<u8>>) -> Result<
    Outcome,
    StorageError,
> {
    match document {
        None => Ok(Outcome::Loaded(None)),
        Some(bytes) => match verdict(codec, bytes) {
            Ok(auth) => Ok(Outcome::Loaded(Some(auth))),
            Err(cause) => Err(StorageError::Document(cause)),
        },
    }
}

/// The first `limit` bytes of a document.
pub open spec fn prefix(document: Seq<u8>, limit: u64) -> Seq<u8> {
    if document.len() > limit {
        document.take(limit as int)
    } else {
        document
    }
}

/// The scene after the file that is open was given new contents.
pub open spec fn overwritten(scene: Scene, contents: Seq<u8>) -> Scene {
    Scene {
        disk: Disk {
            contents: scene.disk.contents.insert(scene.hands.open, contents),
            flushed: scene.disk.flushed.remove(scene.hands.open),
            ..scene.disk
        },
        ..scene
    }
}

/// Whether `later` differs from `scene` by a new and empty file that `name` leads to
/// and that is open.
pub open spec fn created(scene: Scene, name: FileName, later: Scene) -> bool {
    let disk = scene.disk;
    let file = later.hands.open;
    &&& !disk.names.contains_key(name)
    &&& !disk.contents.contains_key(file)
    &&& later == Scene {
        disk: Disk {
            names: disk.names.insert(name, file),
            contents: disk.contents.insert(file, Seq::empty()),
            flushed: disk.flushed.remove(file),
            settled: false,
            metadata: disk.metadata.insert(file, later.disk.metadata[file]),
            ..disk
        },
        hands: Hands { open: file, ..scene.hands },
    }
}

/// Whether only what is known of the file that `name` led to has changed: it has
/// lost a link.
pub open spec fn unlinked(disk: Disk, name: FileName, later: Disk) -> bool {
    forall|file: nat|
        !(disk.names.contains_key(name) && disk.names[name] == file)
            ==> #[trigger] later.metadata[file] == disk.metadata[file]
}

/// Whether `later` is what a request that was answered by `event` has made of
/// `scene`.
pub open spec fn performed(
    codec: Codec,
    scene: Scene,
    request: Request,
    event: Event,
    later: Scene,
) -> bool {
    let disk = scene.disk;
    let hands = scene.hands;
    &&& sound(disk)
    &&& sound(later.disk)
    &&& answers(request, event)
    &&& match (request, event) {
        (Request::Canonicalize, Event::Path(Ok(resolved))) => resolved@ == disk.canonical && later
            == scene,
        (Request::StatDirectory, Event::Stat { metadata: Ok(found), euid }) => found
            == disk.directory && euid == disk.euid && later == scene,
        (Request::StatLease, Event::Stat { metadata: Ok(found), .. }) => found == hands.lease
            && later == scene,
        (Request::OpenFile { name, flags, .. }, Event::Completed(Ok(_))) =>
        if disk.names.contains_key(name) {
            &&& !(flags.create && flags.exclusive)
            &&& later == Scene { hands: Hands { open: disk.names[name], ..hands }, ..scene }
        } else {
            flags.create && created(scene, name, later)
        },
        (Request::OpenFile { name, .. }, Event::Completed(Err(fault))) => {
            &&& fault.kind == FaultKind::NotFound ==> !disk.names.contains_key(name)
            &&& later == scene
        },
        (Request::StatFile, Event::Stat { metadata: Ok(found), euid }) => found
            == disk.metadata[hands.open] && euid == disk.euid && later == scene,
        (Request::StatFile, Event::Stat { metadata: Err(fault), .. }) => fault.kind
            != FaultKind::NotFound && later == scene,
        (Request::TryLock, Event::Lock(LockReply::Acquired)) => later == Scene {
            hands: Hands { lease: disk.directory, ..hands },
            ..scene
        },
        (Request::Read { limit }, Event::Bytes(Ok(bytes))) => bytes@ == prefix(
            disk.contents[hands.open],
            limit,
        ) && later == Scene { hands: Hands { buffer: bytes@, ..hands }, ..scene },
        (Request::Encode, Event::Bytes(Ok(bytes))) => bytes@ == codec.encoded && later == Scene {
            hands: Hands { buffer: bytes@, ..hands },
            ..scene
        },
        (Request::Decode, Event::Decoded(parsed)) => parsed == (codec.decode)(hands.buffer)
            && later == scene,
        (Request::Write, Event::Completed(Ok(_))) => later == overwritten(scene, hands.buffer),
        (Request::Write, Event::Completed(Err(_))) => exists|partial: Seq<u8>|
            later == #[trigger] overwritten(scene, partial),
        (Request::SyncFile, Event::Completed(Ok(_))) => later == Scene {
            disk: Disk { flushed: disk.flushed.insert(hands.open), ..disk },
            ..scene
        },
        (Request::Rename { from, to }, Event::Completed(Ok(_))) => {
            &&& disk.names.contains_key(from)
            &&& unlinked(disk, to, later.disk)
            &&& later == Scene {
                disk: Disk {
                    names: disk.names.remove(from).insert(to, disk.names[from]),
                    settled: false,
                    metadata: later.disk.metadata,
                    ..disk
                },
                ..scene
            }
        },
        (Request::SyncDirectory, Event::Completed(Ok(_))) => later == Scene {
            disk: Disk { settled: true, ..disk },
            ..scene
        },
        (Request::Unlink { name }, Event::Completed(Ok(_))) => {
            &&& disk.names.contains_key(name)
            &&& unlinked(disk, name, later.disk)
            &&& later == Scene {
                disk: Disk {
                    names: disk.names.remove(name),
                    settled: false,
                    metadata: later.disk.metadata,
                    ..disk
                },
                ..scene
            }
        },
        (Request::Unlink { name }, Event::Completed(Err(fault))) => {
            &&& fault.kind == FaultKind::NotFound ==> !disk.names.contains_key(name)
            &&& later == scene
        },
        _ => later == scene,
    }
}

/// A run of a session: the events that it was told, and the moments before, between
/// and after them.
pub struct Run {
    pub session: Session,
    pub events: Seq<Event>,
    pub scenes: Seq<Scene>,
}

impl Run {
    /// The session after the first `i` events.
    pub open spec fn session_at(self, i: int) -> Session {
        after(self.session, self.events.take(i))
    }

    /// The session at the end.
    pub open spec fn last_session(self) -> Session {
        after(self.session, self.events)
    }

    /// The disk after the first `i` events.
    pub open spec fn disk_at(self, i: int) -> Disk {
        self.scenes[i].disk
    }

    /// The disk at the beginning.
    pub open spec fn first_disk(self) -> Disk {
        self.scenes[0].disk
    }

    /// The moment at the end.
    pub open spec fn last_scene(self) -> Scene {
        self.scenes.last()
    }

    /// The disk at the end.
    pub open spec fn last_disk(self) -> Disk {
        self.scenes.last().disk
    }

    /// Whether every event answers a request that was performed, and nobody else
    /// changed the directory meanwhile.
    pub open spec fn faithful(self, codec: Codec) -> bool {
        &&& fresh(self.session)
        &&& sound(self.first_disk())
        &&& self.scenes.len() == self.events.len() + 1
        &&& forall|i: int|
            0 <= i < self.events.len() ==> #[trigger] step_performed(self, codec, i)
    }
}

/// Whether event `i` of a run answers a request that was performed.
pub open spec fn step_performed(run: Run, codec: Codec, i: int) -> bool {
    pending(run.session_at(i)) matches Some(request) && performed(
        codec,
        run.scenes[i],
        request,
        run.events[i],
        run.scenes[i + 1],
    )
}

} // verus!
