use shared_auth::credentials::{AuthDotJson, AuthJsonError, AuthMode, MAX_AUTH_JSON_BYTES};
use shared_auth::error::{ErrorKind, Fault, FaultKind, StorageError};
use shared_auth::names::FileName;
use shared_auth::session::{
    is_private_mode, is_trusted_directory, is_trusted_file, Access, Event, Goal, LockReply,
    Metadata, OpenFlags, Outcome, Request, Session,
};
use shared_auth::storage::{
    selected_storage, shared_auth_enabled, storage_at, AuthCredentialsStoreMode, Platform,
    SharedAuthStorage,
};

const EUID: u32 = 1000;

fn directory() -> Metadata {
    Metadata { is_file: false, uid: EUID, mode: 0o040700, nlink: 2, dev: 7, ino: 11 }
}

fn file() -> Metadata {
    Metadata { is_file: true, uid: EUID, mode: 0o100600, nlink: 1, dev: 7, ino: 12 }
}

fn stat(metadata: Metadata) -> Event {
    Event::Stat { metadata: Ok(metadata), euid: EUID }
}

fn done() -> Event {
    Event::Completed(Ok(()))
}

fn fault(id: u64) -> Fault {
    Fault { kind: FaultKind::Other, id }
}

fn missing(id: u64) -> Fault {
    Fault { kind: FaultKind::NotFound, id }
}

fn failed(fault: Fault) -> Event {
    Event::Completed(Err(fault))
}

fn key() -> AuthDotJson {
    AuthDotJson {
        resolved_mode: AuthMode::ApiKey,
        openai_api_key: Some("secret".to_string()),
        tokens: None,
        agent_identity: None,
        personal_access_token: None,
        bedrock_api_key: None,
        bedrock_access_keys: None,
    }
}

fn store(lease: Option<u8>) -> SharedAuthStorage<u8> {
    SharedAuthStorage { root: b"/proc/1/fd/2".to_vec(), lease }
}

fn advance(mut session: Session, events: Vec<Event>) -> Session {
    for event in events {
        assert!(session.request().is_some());
        session = session.step(event);
    }
    session
}

fn inside(session: Session) -> Session {
    let leased = session.leased;
    let session = advance(session, vec![done(), stat(directory())]);
    if leased {
        assert_eq!(session.request(), Some(Request::StatLease));
        advance(session, vec![stat(directory())])
    } else {
        session
    }
}

fn result(session: Session) -> Result<Outcome, StorageError> {
    assert_eq!(session.request(), None);
    session.into_result().unwrap()
}

fn saving() -> Session {
    let session = inside(store(Some(1)).save_through(Platform::Linux, 0x2f));
    assert_eq!(session.request(), Some(Request::Encode));
    let session = advance(session, vec![Event::Bytes(Ok(vec![1, 2, 3]))]);
    assert_eq!(session.request(), Some(Request::Decode));
    let session = advance(session, vec![Event::Decoded(Some(key()))]);
    let session = advance(session, vec![done(), stat(file())]);
    assert_eq!(session.request(), Some(Request::Write));
    session
}

#[test]
fn the_shared_store_is_explicit() {
    for mode in [
        AuthCredentialsStoreMode::File,
        AuthCredentialsStoreMode::Keyring,
        AuthCredentialsStoreMode::Auto,
    ] {
        assert!(shared_auth_enabled(mode, true));
        assert!(!shared_auth_enabled(mode, false));
        assert_eq!(
            selected_storage::<u8>(mode, Some(b"/x".to_vec())),
            Some(SharedAuthStorage { root: b"/x".to_vec(), lease: None })
        );
        assert_eq!(selected_storage::<u8>(mode, None), None);
    }
    let mode = AuthCredentialsStoreMode::Ephemeral;
    assert!(!shared_auth_enabled(mode, true));
    assert_eq!(selected_storage::<u8>(mode, Some(b"/x".to_vec())), None);
}

#[test]
fn other_platforms_are_refused() {
    let storage = store(None);
    for session in [
        storage.load(Platform::Other),
        storage.save(Platform::Other),
        storage.delete(Platform::Other),
    ] {
        assert_eq!(result(session), Err(StorageError::UnsupportedPlatform));
    }
    assert_eq!(
        StorageError::UnsupportedPlatform.message(),
        Some("CODEX_AUTH_HOME is supported only on Linux")
    );
}

#[test]
fn relative_paths_are_refused_at_once() {
    let storage: SharedAuthStorage<u8> = storage_at(b"relative".to_vec());
    assert_eq!(result(storage.load(Platform::Linux)), Err(StorageError::Route));
    let storage: SharedAuthStorage<u8> = storage_at(b"x/proc/1/fd/2".to_vec());
    assert_eq!(result(storage.transaction()), Err(StorageError::Route));
    assert_eq!(
        StorageError::Route.message(),
        Some("CODEX_AUTH_HOME must be an absolute directory without symlinks")
    );
}

#[test]
fn plain_paths_are_resolved_and_not_followed() {
    let storage: SharedAuthStorage<u8> = storage_at(b"/private/auth/".to_vec());
    let session = storage.load(Platform::Linux);
    assert_eq!(session.request(), Some(Request::Canonicalize));
    let session = session.step(Event::Path(Ok(b"/private/auth".to_vec())));
    let flags = OpenFlags {
        access: Access::Read,
        directory: true,
        create: false,
        exclusive: false,
        no_follow: true,
        close_on_exec: true,
        non_blocking: false,
    };
    assert_eq!(session.request(), Some(Request::OpenRoot { flags, permissions: 0 }));
    let other = storage.load(Platform::Linux).step(Event::Path(Ok(b"/elsewhere".to_vec())));
    assert_eq!(result(other), Err(StorageError::Route));
    let broken = storage.load(Platform::Linux).step(Event::Path(Err(missing(4))));
    assert_eq!(result(broken), Err(StorageError::System(missing(4))));
    let route = store(None).load(Platform::Linux);
    assert_eq!(
        route.request(),
        Some(Request::OpenRoot { flags: OpenFlags { no_follow: false, ..flags }, permissions: 0 })
    );
    assert_eq!(
        result(advance(route, vec![failed(missing(5))])),
        Err(StorageError::System(missing(5)))
    );
}

#[test]
fn directories_must_be_private_and_owned() {
    for bad in [
        Metadata { uid: EUID + 1, ..directory() },
        Metadata { mode: 0o040755, ..directory() },
        Metadata { mode: 0o040710, ..directory() },
        Metadata { mode: 0o040701, ..directory() },
    ] {
        assert!(!is_trusted_directory(&bad, EUID));
        let session = advance(store(None).load(Platform::Linux), vec![done(), stat(bad)]);
        assert_eq!(result(session), Err(StorageError::DirectoryAuthority));
    }
    assert!(is_trusted_directory(&directory(), EUID));
    for mode in 0..0o2000u32 {
        assert_eq!(is_private_mode(mode), mode % 64 == 0);
    }
    assert_eq!(
        StorageError::DirectoryAuthority.message(),
        Some("CODEX_AUTH_HOME must be owned by the current user and private (0700)")
    );
    let session = advance(
        store(None).load(Platform::Linux),
        vec![done(), Event::Stat { metadata: Err(fault(9)), euid: EUID }],
    );
    assert_eq!(result(session), Err(StorageError::System(fault(9))));
}

#[test]
fn a_lease_binds_its_directory() {
    for held in [
        Metadata { dev: 8, ..directory() },
        Metadata { ino: 99, ..directory() },
    ] {
        let session = advance(
            store(Some(1)).delete(Platform::Linux),
            vec![done(), stat(directory()), stat(held)],
        );
        assert_eq!(result(session), Err(StorageError::DirectoryChanged));
    }
    assert_eq!(
        StorageError::DirectoryChanged.message(),
        Some("CODEX_AUTH_HOME changed during authentication")
    );
    let session = advance(
        store(Some(1)).delete(Platform::Linux),
        vec![
            done(),
            stat(directory()),
            Event::Stat { metadata: Err(fault(3)), euid: EUID },
        ],
    );
    assert_eq!(result(session), Err(StorageError::System(fault(3))));
}

#[test]
fn files_must_be_private_regular_and_owned() {
    for bad in [
        Metadata { is_file: false, ..file() },
        Metadata { uid: EUID + 1, ..file() },
        Metadata { mode: 0o100640, ..file() },
        Metadata { nlink: 2, ..file() },
    ] {
        assert!(!is_trusted_file(&bad, EUID));
        let session = advance(inside(store(None).load(Platform::Linux)), vec![done(), stat(bad)]);
        assert_eq!(result(session), Err(StorageError::FileAuthority));
    }
    assert!(is_trusted_file(&file(), EUID));
    assert_eq!(
        StorageError::FileAuthority.message(),
        Some("shared auth files must be private, owned regular files")
    );
}

#[test]
fn a_load_reads_and_judges_the_credentials() {
    let session = inside(store(None).load(Platform::Linux));
    let flags = OpenFlags {
        access: Access::Read,
        directory: false,
        create: false,
        exclusive: false,
        no_follow: true,
        close_on_exec: true,
        non_blocking: true,
    };
    assert_eq!(
        session.request(),
        Some(Request::OpenFile { name: FileName::Credentials, flags, permissions: 0o600 })
    );
    let session = advance(session, vec![done(), stat(file())]);
    assert_eq!(session.request(), Some(Request::Read { limit: MAX_AUTH_JSON_BYTES + 1 }));
    let session = advance(session, vec![Event::Bytes(Ok(vec![1])), Event::Decoded(Some(key()))]);
    assert_eq!(result(session), Ok(Outcome::Loaded(Some(key()))));
}

#[test]
fn a_load_without_credentials_finds_none() {
    let opened = inside(store(None).load(Platform::Linux));
    assert_eq!(result(advance(opened, vec![failed(missing(1))])), Ok(Outcome::Loaded(None)));
    let opened = inside(store(None).load(Platform::Linux));
    assert_eq!(
        result(advance(opened, vec![failed(fault(1))])),
        Err(StorageError::System(fault(1)))
    );
}

#[test]
fn a_load_refuses_bad_documents() {
    let read = || advance(inside(store(None).load(Platform::Linux)), vec![done(), stat(file())]);
    let large = vec![0u8; MAX_AUTH_JSON_BYTES as usize + 1];
    assert_eq!(
        result(advance(read(), vec![Event::Bytes(Ok(large))])),
        Err(StorageError::Document(AuthJsonError::TooLarge))
    );
    assert_eq!(
        result(advance(read(), vec![Event::Bytes(Ok(vec![])), Event::Decoded(None)])),
        Err(StorageError::Document(AuthJsonError::Invalid))
    );
    let mut blank = key();
    blank.openai_api_key = None;
    assert_eq!(
        result(advance(read(), vec![Event::Bytes(Ok(vec![])), Event::Decoded(Some(blank))])),
        Err(StorageError::Document(AuthJsonError::Unusable))
    );
    assert_eq!(
        result(advance(read(), vec![Event::Bytes(Err(fault(6)))])),
        Err(StorageError::System(fault(6)))
    );
    assert_eq!(
        StorageError::Document(AuthJsonError::Invalid).message(),
        Some("invalid auth JSON")
    );
}

#[test]
fn a_transaction_takes_the_lock() {
    let session = inside(store(None).transaction());
    let flags = OpenFlags {
        access: Access::ReadWrite,
        directory: false,
        create: true,
        exclusive: false,
        no_follow: true,
        close_on_exec: true,
        non_blocking: true,
    };
    assert_eq!(
        session.request(),
        Some(Request::OpenFile { name: FileName::Lock, flags, permissions: 0o600 })
    );
    let session = advance(session, vec![done(), stat(file())]);
    assert_eq!(session.request(), Some(Request::ReadClock));
    let session = advance(session, vec![Event::Clock(5)]);
    assert_eq!(session.request(), Some(Request::TryLock));
    let session = advance(session, vec![Event::Lock(LockReply::Acquired)]);
    assert!(session.leased);
    assert_eq!(result(session), Ok(Outcome::Leased));
    let storage = store(None).with_lease(3);
    assert_eq!(storage, store(Some(3)));
}

#[test]
fn a_busy_lock_is_retried_for_thirty_seconds() {
    let start = 1_000_000_000u64;
    let mut session = advance(
        inside(store(None).transaction()),
        vec![done(), stat(file()), Event::Clock(start)],
    );
    let mut now = start;
    let mut sleeps = 0;
    loop {
        session = session.step(Event::Lock(LockReply::Busy { now }));
        if session.request().is_none() {
            break;
        }
        assert_eq!(session.request(), Some(Request::Sleep { millis: 20 }));
        session = session.step(Event::Slept);
        assert_eq!(session.request(), Some(Request::TryLock));
        sleeps += 1;
        now += 20_000_000;
    }
    assert_eq!(sleeps, 1500);
    assert_eq!(now, start + 30_000_000_000);
    assert_eq!(result(session), Err(StorageError::LockTimedOut));
    assert_eq!(StorageError::LockTimedOut.kind(), ErrorKind::TimedOut);
    assert_eq!(StorageError::LockTimedOut.message(), Some("shared auth writer lock timed out"));
    assert_eq!(StorageError::Route.kind(), ErrorKind::Other);
    assert_eq!(StorageError::System(fault(1)).kind(), ErrorKind::System(fault(1)));
    assert_eq!(StorageError::System(fault(1)).message(), None);
}

#[test]
fn writers_that_never_get_the_lock_time_out() {
    for session in [
        store(None).transaction(),
        store(None).save_through(Platform::Linux, 7),
        store(None).delete(Platform::Linux),
    ] {
        let mut session =
            advance(inside(session), vec![done(), stat(file()), Event::Clock(0)]);
        let mut attempts = 0u64;
        while let Some(request) = session.request() {
            let event = match request {
                Request::TryLock => {
                    attempts += 1;
                    Event::Lock(LockReply::Busy { now: (attempts - 1) * 20_000_000 })
                }
                Request::Sleep { .. } => Event::Slept,
                other => panic!("unexpected request {other:?}"),
            };
            session = session.step(event);
        }
        assert_eq!(attempts, 1501);
        assert_eq!(result(session), Err(StorageError::LockTimedOut));
    }
}

#[test]
fn a_lock_that_comes_free_is_taken() {
    let session = advance(
        inside(store(None).transaction()),
        vec![
            done(),
            stat(file()),
            Event::Clock(0),
            Event::Lock(LockReply::Busy { now: 29_999_999_999 }),
            Event::Slept,
            Event::Lock(LockReply::Acquired),
        ],
    );
    assert_eq!(result(session), Ok(Outcome::Leased));
    let session = advance(
        inside(store(None).transaction()),
        vec![done(), stat(file()), Event::Clock(0), Event::Lock(LockReply::Failed(fault(2)))],
    );
    assert_eq!(result(session), Err(StorageError::System(fault(2))));
}

#[test]
fn a_save_replaces_the_credentials_by_renaming() {
    let opening = advance(
        inside(store(Some(1)).save_through(Platform::Linux, 0x2f)),
        vec![Event::Bytes(Ok(vec![1])), Event::Decoded(Some(key()))],
    );
    let flags = OpenFlags {
        access: Access::Write,
        directory: false,
        create: true,
        exclusive: true,
        no_follow: true,
        close_on_exec: true,
        non_blocking: true,
    };
    assert_eq!(
        opening.request(),
        Some(Request::OpenFile { name: FileName::Temporary(0x2f), flags, permissions: 0o600 })
    );
    let session = saving().step(done());
    assert_eq!(session.request(), Some(Request::SyncFile));
    let session = session.step(done());
    assert_eq!(
        session.request(),
        Some(Request::Rename { from: FileName::Temporary(0x2f), to: FileName::Credentials })
    );
    let session = session.step(done());
    assert_eq!(session.request(), Some(Request::SyncDirectory));
    assert_eq!(result(session.step(done())), Ok(Outcome::Saved));
}

#[test]
fn a_failed_save_removes_its_temporary_file() {
    for successes in 0..4 {
        for removal in [done(), failed(missing(8))] {
            let mut session = saving();
            for _ in 0..successes {
                session = session.step(done());
            }
            session = session.step(failed(fault(7)));
            assert_eq!(
                session.request(),
                Some(Request::Unlink { name: FileName::Temporary(0x2f) })
            );
            assert_eq!(result(session.step(removal)), Err(StorageError::System(fault(7))));
        }
    }
}

#[test]
fn a_save_stores_nothing_that_would_be_refused() {
    let encoding = || inside(store(Some(1)).save(Platform::Linux));
    let mut blank = key();
    blank.openai_api_key = Some(String::new());
    assert_eq!(
        result(advance(encoding(), vec![Event::Bytes(Ok(vec![1])), Event::Decoded(Some(blank))])),
        Err(StorageError::Document(AuthJsonError::Unusable))
    );
    let large = vec![0u8; MAX_AUTH_JSON_BYTES as usize + 1];
    assert_eq!(
        result(advance(encoding(), vec![Event::Bytes(Ok(large))])),
        Err(StorageError::Document(AuthJsonError::TooLarge))
    );
    assert_eq!(
        result(advance(encoding(), vec![Event::Bytes(Err(fault(1)))])),
        Err(StorageError::System(fault(1)))
    );
}

#[test]
fn an_untrusted_temporary_file_is_not_written() {
    let session = advance(
        inside(store(Some(1)).save_through(Platform::Linux, 1)),
        vec![
            Event::Bytes(Ok(vec![1])),
            Event::Decoded(Some(key())),
            done(),
            stat(Metadata { nlink: 2, ..file() }),
        ],
    );
    assert_eq!(result(session), Err(StorageError::FileAuthority));
}

#[test]
fn writers_without_a_lease_lock_first() {
    for session in [store(None).save(Platform::Linux), store(None).delete(Platform::Linux)] {
        let goal = session.goal;
        let session = advance(
            inside(session),
            vec![done(), stat(file()), Event::Clock(0), Event::Lock(LockReply::Acquired)],
        );
        assert!(session.leased);
        let session = inside(session);
        let expected = if goal == Goal::Save {
            Request::Encode
        } else {
            Request::Unlink { name: FileName::Credentials }
        };
        assert_eq!(session.request(), Some(expected));
    }
}

#[test]
fn a_delete_says_whether_there_was_anything() {
    let unlinking = || inside(store(Some(1)).delete(Platform::Linux));
    let session = unlinking().step(done());
    assert_eq!(session.request(), Some(Request::SyncDirectory));
    assert_eq!(result(session.step(done())), Ok(Outcome::Deleted(true)));
    assert_eq!(result(unlinking().step(failed(missing(1)))), Ok(Outcome::Deleted(false)));
    assert_eq!(
        result(unlinking().step(failed(fault(1)))),
        Err(StorageError::System(fault(1)))
    );
    assert_eq!(
        result(unlinking().step(done()).step(failed(fault(2)))),
        Err(StorageError::System(fault(2)))
    );
}

#[test]
fn events_that_answer_nothing_change_nothing() {
    let session = store(None).load(Platform::Linux);
    let request = session.request();
    let session = session.step(Event::Slept).step(Event::Clock(1)).step(Event::Decoded(None));
    assert_eq!(session.request(), request);
    let ended = storage_at::<u8>(b"relative".to_vec()).load(Platform::Linux).step(done());
    assert_eq!(result(ended), Err(StorageError::Route));
}

#[test]
fn temporary_files_have_drawn_suffixes() {
    let first = store(None).save(Platform::Linux).suffix;
    let repeats = (0..8).filter(|_| store(None).save(Platform::Linux).suffix == first).count();
    assert!(repeats < 8);
}

#[test]
fn writers_without_the_lock_fail_as_transactions_do() {
    let endings: Vec<fn() -> Vec<Event>> = vec![
        || vec![failed(fault(1))],
        || vec![done(), stat(Metadata { uid: EUID + 1, ..directory() })],
        || vec![done(), stat(directory()), failed(missing(2))],
        || vec![done(), stat(directory()), done(), stat(Metadata { nlink: 2, ..file() })],
        || {
            vec![
                done(),
                stat(directory()),
                done(),
                stat(file()),
                Event::Clock(0),
                Event::Lock(LockReply::Busy { now: 30_000_000_000 }),
            ]
        },
        || {
            vec![
                done(),
                stat(directory()),
                done(),
                stat(file()),
                Event::Clock(0),
                Event::Lock(LockReply::Failed(fault(3))),
            ]
        },
    ];
    for ending in endings {
        let expected = result(advance(store(None).transaction(), ending()));
        assert!(expected.is_err());
        let save = advance(store(None).save(Platform::Linux), ending());
        assert!(!save.leased);
        assert_eq!(result(save), expected);
        let delete = advance(store(None).delete(Platform::Linux), ending());
        assert!(!delete.leased);
        assert_eq!(result(delete), expected);
    }
}
