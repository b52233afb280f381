//! The shared credential store: when it is chosen, and the operations on it.

use crate::error::StorageError;
use crate::names::random_suffix;
use crate::path::{absolute, descriptor_route};
use crate::session::{ended, pending, route, Goal, Outcome, Phase, Request, Session};
use vstd::prelude::*;

verus! {

/// Where credentials are configured to be kept.
#[derive(Clone, Copy, Debug, PartialEq, Eq, Structural)]
pub enum AuthCredentialsStoreMode {
    File,
    Keyring,
    Auto,
    /// In memory, for the life of the process.
    Ephemeral,
}

/// The operating system that the process runs on.
#[derive(Clone, Copy, Debug, PartialEq, Eq, Structural)]
pub enum Platform {
    Linux,
    Other,
}

/// The store in a shared credential directory. A lease, of whatever type the
/// holder keeps it in, says that the writer lock is held.
#[derive(Clone, Debug, PartialEq, Eq)]
pub struct SharedAuthStorage<L> {
    /// The path of the directory.
    pub root: Vec<u8>,
    pub lease: Option<L>,
}

/// Whether the shared store is in use, given whether a shared directory is
/// configured. Ephemeral credentials never use it.
pub open spec fn shared(mode: AuthCredentialsStoreMode, configured: bool) -> bool {
    mode != AuthCredentialsStoreMode::Ephemeral && configured
}

/// Where an operation begins.
pub open spec fn entry(platform: Platform, root: Seq<u8>) -> Phase {
    match platform {
        Platform::Linux => route(root),
        Platform::Other => Phase::Ended(Err(StorageError::UnsupportedPlatform)),
    }
}

/// Whether `session` is an operation of `storage` that is just beginning.
pub open spec fn begins<L>(
    session: Session,
    storage: SharedAuthStorage<L>,
    goal: Goal,
    platform: Platform,
) -> bool {
    &&& session.goal == goal
    &&& session.root@ == storage.root@
    &&& session.leased == storage.lease is Some
    &&& session.phase == entry(platform, storage.root@)
}

/// Whether the shared store is in use.
pub fn shared_auth_enabled(mode: AuthCredentialsStoreMode, configured: bool) -> (enabled: bool)
    ensures
        enabled == shared(mode, configured),
{
    mode != AuthCredentialsStoreMode::Ephemeral && configured
}

/// The shared store, if it is in use; `home` is the configured directory.
pub fn selected_storage<L>(mode: AuthCredentialsStoreMode, home: Option<Vec<u8>>) -> (storage:
    Option<SharedAuthStorage<L>>)
    ensures
        storage is Some <==> shared(mode, home is Some),
        storage matches Some(found) ==> home == Some(found.root) && found.lease is None,
{
    if mode == AuthCredentialsStoreMode::Ephemeral {
        return None;
    }
    match home {
        Some(root) => Some(storage_at(root)),
        None => None,
    }
}

/// The store in the directory at `root`, without a lease.
pub fn storage_at<L>(root: Vec<u8>) -> (storage: SharedAuthStorage<L>)
    ensures
        storage == (SharedAuthStorage::<L> { root, lease: None }),
{
    SharedAuthStorage { root, lease: None }
}

fn copy_bytes(bytes: &Vec<u8>) -> (copy: Vec<u8>)
    ensures
        copy@ == bytes@,
{
    let copy: Vec<u8> = bytes.clone();
    assert(copy@ =~= bytes@);
    copy
}

impl<L> SharedAuthStorage<L> {
    /// Begins an operation.
    fn begin(&self, goal: Goal, platform: Platform, suffix: u64) -> (session: Session)
        ensures
            begins(session, *self, goal, platform),
            session.suffix == suffix,
    {
        let root: Vec<u8> = copy_bytes(&self.root);
        let leased: bool = self.lease.is_some();
        match platform {
            Platform::Linux => Session::start(goal, root, leased, suffix),
            Platform::Other => Session::refused(
                goal,
                root,
                leased,
                suffix,
                StorageError::UnsupportedPlatform,
            ),
        }
    }

    /// Begins to load the stored credentials.
    pub fn load(&self, platform: Platform) -> (session: Session)
        ensures
            begins(session, *self, Goal::Load, platform),
            session.suffix == 0,
    {
        self.begin(Goal::Load, platform, 0)
    }

    /// Begins to take the writer lock. There is one on Linux only.
    pub fn transaction(&self) -> (session: Session)
        ensures
            begins(session, *self, Goal::Transaction, Platform::Linux),
            session.suffix == 0,
    {
        self.begin(Goal::Transaction, Platform::Linux, 0)
    }

    /// Begins to replace the stored credentials, through a temporary file with
    /// the given suffix. Without a lease the writer lock is taken first.
    pub fn save_through(&self, platform: Platform, suffix: u64) -> (session: Session)
        ensures
            begins(session, *self, Goal::Save, platform),
            session.suffix == suffix,
    {
        self.begin(Goal::Save, platform, suffix)
    }

    /// Begins to replace the stored credentials, through a temporary file with a
    /// freshly drawn suffix.
    pub fn save(&self, platform: Platform) -> (session: Session)
        ensures
            begins(session, *self, Goal::Save, platform),
    {
        let suffix: u64 = random_suffix();
        self.save_through(platform, suffix)
    }

    /// Begins to remove the stored credentials. Without a lease the writer lock
    /// is taken first.
    pub fn delete(&self, platform: Platform) -> (session: Session)
        ensures
            begins(session, *self, Goal::Delete, platform),
            session.suffix == 0,
    {
        self.begin(Goal::Delete, platform, 0)
    }

    /// The same store with a lease, which a transaction that ended well yields.
    pub fn with_lease(&self, lease: L) -> (storage: SharedAuthStorage<L>)
        ensures
            storage.root@ == self.root@,
            storage.lease == Some(lease),
    {
        SharedAuthStorage { root: copy_bytes(&self.root), lease: Some(lease) }
    }
}

/// Ephemeral credentials never select the shared store, and neither does
/// anything without a configured directory.
pub proof fn shared_store_is_explicit(mode: AuthCredentialsStoreMode, configured: bool)
    ensures
        !shared(AuthCredentialsStoreMode::Ephemeral, configured),
        !shared(mode, false),
        mode != AuthCredentialsStoreMode::Ephemeral ==> shared(mode, true),
{
}

/// An operation begins with the directory that is configured and the lock if it is
/// held. On Linux it asks for the way to the directory, and is refused before that
/// only for a relative path; elsewhere it is refused at once.
pub proof fn operations_begin_at_the_directory<L>(
    session: Session,
    storage: SharedAuthStorage<L>,
    goal: Goal,
    platform: Platform,
)
    requires
        begins(session, storage, goal, platform),
    ensures
        session.goal == goal,
        session.root@ == storage.root@,
        session.leased <==> storage.lease is Some,
        platform == Platform::Other ==> ended(session) == Some(
            Err::<Outcome, StorageError>(StorageError::UnsupportedPlatform),
        ),
        platform == Platform::Linux ==> {
            &&& ended(session) == (if absolute(storage.root@) {
                None
            } else {
                Some(Err::<Outcome, StorageError>(StorageError::Route))
            })
            &&& pending(session) == Some(Request::Canonicalize) <==> absolute(storage.root@)
                && !descriptor_route(storage.root@)
            &&& (pending(session) matches Some(Request::OpenRoot { .. })) <==> absolute(
                storage.root@,
            ) && descriptor_route(storage.root@)
        },
        ended(session) is Some <==> pending(session) is None,
{
}

/// A load, a save and a delete begin alike, but for what they are for; a save writes
/// through the suffix that it is given or draws. A transaction begins on Linux, and the store
/// that it yields is the same store with the lease.
pub proof fn operations_begin_as_they_are_named<L>(
    storage: SharedAuthStorage<L>,
    platform: Platform,
    suffix: u64,
    lease: L,
    load: Session,
    save: Session,
    drawn: Session,
    delete: Session,
    transaction: Session,
    leased: SharedAuthStorage<L>,
)
    requires
        call_ensures(SharedAuthStorage::<L>::load, (&storage, platform), load),
        call_ensures(SharedAuthStorage::<L>::save_through, (&storage, platform, suffix), save),
        call_ensures(SharedAuthStorage::<L>::save, (&storage, platform), drawn),
        call_ensures(SharedAuthStorage::<L>::delete, (&storage, platform), delete),
        call_ensures(SharedAuthStorage::<L>::transaction, (&storage,), transaction),
        call_ensures(SharedAuthStorage::<L>::with_lease, (&storage, lease), leased),
    ensures
        begins(load, storage, Goal::Load, platform),
        begins(save, storage, Goal::Save, platform),
        begins(drawn, storage, Goal::Save, platform),
        begins(delete, storage, Goal::Delete, platform),
        begins(transaction, storage, Goal::Transaction, Platform::Linux),
        save.suffix == suffix,
        leased.root@ == storage.root@,
        leased.lease == Some(lease),
{
}

/// The shared store is selected exactly if a directory is configured and the
/// credentials are not ephemeral. It is then the store in that directory, without a
/// lease.
pub proof fn configured_directories_are_selected<L>(
    mode: AuthCredentialsStoreMode,
    home: Option<Vec<u8>>,
    enabled: bool,
    storage: Option<SharedAuthStorage<L>>,
)
    requires
        call_ensures(shared_auth_enabled, (mode, home is Some), enabled),
        call_ensures(selected_storage::<L>, (mode, home), storage),
    ensures
        enabled <==> mode != AuthCredentialsStoreMode::Ephemeral && home is Some,
        storage is Some <==> enabled,
        storage matches Some(found) ==> home == Some(found.root) && found.lease is None,
{
}

} // verus!
