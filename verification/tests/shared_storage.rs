//! The shared store on a real file system.

use rustix::fd::{AsRawFd, OwnedFd};
use rustix::fs::{AtFlags, FileType, FlockOperation, Mode, OFlags};
use rustix::io::Errno;
use shared_auth::credentials::{read_auth_json, AuthDotJson, AuthMode, TokenData, MAX_AUTH_JSON_BYTES};
use shared_auth::error::{Fault, FaultKind, StorageError};
use shared_auth::session::{
    Access, Event, LockReply, Metadata, OpenFlags, Outcome, Request, Session,
};
use shared_auth::storage::{storage_at, Platform, SharedAuthStorage};
use std::path::PathBuf;
use std::rc::Rc;
use std::time::{Duration, Instant};

struct Lease {
    directory: OwnedFd,
    _lock: OwnedFd,
}

type Storage = SharedAuthStorage<Rc<Lease>>;

struct Runner<'a> {
    root: PathBuf,
    directory: Option<OwnedFd>,
    file: Option<OwnedFd>,
    lease: Option<Rc<Lease>>,
    buffer: Vec<u8>,
    auth: Option<&'a AuthDotJson>,
    origin: Instant,
}

fn text(value: Option<&serde_json::Value>) -> Option<String> {
    value.and_then(|found| found.as_str()).map(|found| found.to_string())
}

fn parse(bytes: &[u8]) -> Option<AuthDotJson> {
    let value: serde_json::Value = serde_json::from_slice(bytes).ok()?;
    let object = value.as_object()?;
    let key = text(object.get("OPENAI_API_KEY"));
    let mode = match text(object.get("auth_mode")).as_deref() {
        Some("chatgpt") => AuthMode::Chatgpt,
        Some("apikey") => AuthMode::ApiKey,
        Some(_) => return None,
        None if key.is_some() => AuthMode::ApiKey,
        None => AuthMode::Chatgpt,
    };
    let tokens = object.get("tokens").and_then(|found| found.as_object()).map(|found| TokenData {
        access_token: text(found.get("access_token")).unwrap_or_default(),
        refresh_token: text(found.get("refresh_token")).unwrap_or_default(),
    });
    Some(AuthDotJson {
        resolved_mode: mode,
        openai_api_key: key,
        tokens,
        agent_identity: None,
        personal_access_token: None,
        bedrock_api_key: None,
        bedrock_access_keys: None,
    })
}

fn encode(auth: &AuthDotJson) -> Vec<u8> {
    let mut object = serde_json::Map::new();
    if let Some(key) = &auth.openai_api_key {
        object.insert("OPENAI_API_KEY".to_string(), serde_json::Value::from(key.as_str()));
    }
    serde_json::to_vec_pretty(&serde_json::Value::Object(object)).unwrap()
}

fn fault(errno: Errno) -> Fault {
    Fault {
        kind: if errno == Errno::NOENT { FaultKind::NotFound } else { FaultKind::Other },
        id: errno.raw_os_error() as u64,
    }
}

fn completed(result: Result<(), Errno>) -> Event {
    Event::Completed(result.map_err(fault))
}

fn flags(wanted: OpenFlags) -> OFlags {
    let mut bits = match wanted.access {
        Access::Read => OFlags::RDONLY,
        Access::Write => OFlags::WRONLY,
        Access::ReadWrite => OFlags::RDWR,
    };
    for (set, bit) in [
        (wanted.directory, OFlags::DIRECTORY),
        (wanted.create, OFlags::CREATE),
        (wanted.exclusive, OFlags::EXCL),
        (wanted.no_follow, OFlags::NOFOLLOW),
        (wanted.close_on_exec, OFlags::CLOEXEC),
        (wanted.non_blocking, OFlags::NONBLOCK),
    ] {
        if set {
            bits |= bit;
        }
    }
    bits
}

fn stat(fd: &OwnedFd) -> Event {
    let metadata = rustix::fs::fstat(fd).map_err(fault).map(|found| Metadata {
        is_file: FileType::from_raw_mode(found.st_mode) == FileType::RegularFile,
        uid: found.st_uid,
        mode: found.st_mode,
        nlink: u64::from(found.st_nlink),
        dev: found.st_dev,
        ino: found.st_ino,
    });
    Event::Stat { metadata, euid: rustix::process::geteuid().as_raw() }
}

fn read_up_to(fd: &OwnedFd, limit: u64) -> Result<Vec<u8>, Errno> {
    let mut bytes = Vec::new();
    let mut chunk = vec![0u8; 65536];
    while (bytes.len() as u64) < limit {
        let room = (limit - bytes.len() as u64).min(65536) as usize;
        let n = rustix::io::read(fd, &mut chunk[..room])?;
        if n == 0 {
            break;
        }
        bytes.extend_from_slice(&chunk[..n]);
    }
    Ok(bytes)
}

impl Runner<'_> {
    fn perform(&mut self, request: Request) -> Event {
        match request {
            Request::Canonicalize => Event::Path(
                self.root
                    .canonicalize()
                    .map(|path| path.into_os_string().into_encoded_bytes())
                    .map_err(|error| Fault {
                        kind: FaultKind::Other,
                        id: error.raw_os_error().unwrap_or(0) as u64,
                    }),
            ),
            Request::OpenRoot { flags: wanted, permissions } => completed(
                rustix::fs::open(&self.root, flags(wanted), Mode::from_raw_mode(permissions))
                    .map(|fd| self.directory = Some(fd)),
            ),
            Request::StatDirectory => stat(self.directory.as_ref().unwrap()),
            Request::StatLease => stat(&self.lease.as_ref().unwrap().directory),
            Request::OpenFile { name, flags: wanted, permissions } => completed(
                rustix::fs::openat(
                    self.directory.as_ref().unwrap(),
                    name.text(),
                    flags(wanted),
                    Mode::from_raw_mode(permissions),
                )
                .map(|fd| self.file = Some(fd)),
            ),
            Request::StatFile => stat(self.file.as_ref().unwrap()),
            Request::ReadClock => Event::Clock(self.origin.elapsed().as_nanos() as u64),
            Request::TryLock => match rustix::fs::flock(
                self.file.as_ref().unwrap(),
                FlockOperation::NonBlockingLockExclusive,
            ) {
                Ok(()) => {
                    self.lease = Some(Rc::new(Lease {
                        directory: self.directory.take().unwrap(),
                        _lock: self.file.take().unwrap(),
                    }));
                    Event::Lock(LockReply::Acquired)
                }
                Err(Errno::WOULDBLOCK) => Event::Lock(LockReply::Busy {
                    now: self.origin.elapsed().as_nanos() as u64,
                }),
                Err(errno) => Event::Lock(LockReply::Failed(fault(errno))),
            },
            Request::Sleep { millis } => {
                let started = Instant::now();
                while started.elapsed() < Duration::from_millis(millis) {}
                Event::Slept
            }
            Request::Read { limit } => {
                let read = read_up_to(self.file.as_ref().unwrap(), limit).map_err(fault);
                if let Ok(bytes) = &read {
                    self.buffer = bytes.clone();
                }
                Event::Bytes(read)
            }
            Request::Encode => {
                self.buffer = encode(self.auth.unwrap());
                Event::Bytes(Ok(self.buffer.clone()))
            }
            Request::Decode => Event::Decoded(parse(&self.buffer)),
            Request::Write => completed({
                let mut rest = self.buffer.as_slice();
                let mut result = Ok(());
                while result.is_ok() && !rest.is_empty() {
                    match rustix::io::write(self.file.as_ref().unwrap(), rest) {
                        Ok(n) => rest = &rest[n..],
                        Err(errno) => result = Err(errno),
                    }
                }
                result
            }),
            Request::SyncFile => completed(rustix::fs::fsync(self.file.as_ref().unwrap())),
            Request::Rename { from, to } => {
                let directory = self.directory.as_ref().unwrap();
                completed(rustix::fs::renameat(directory, from.text(), directory, to.text()))
            }
            Request::SyncDirectory => completed(rustix::fs::fsync(self.directory.as_ref().unwrap())),
            Request::Unlink { name } => completed(rustix::fs::unlinkat(
                self.directory.as_ref().unwrap(),
                name.text(),
                AtFlags::empty(),
            )),
        }
    }
}

fn path_of(storage: &Storage) -> PathBuf {
    PathBuf::from(String::from_utf8(storage.root.clone()).unwrap())
}

fn runner<'a>(storage: &Storage, auth: Option<&'a AuthDotJson>) -> Runner<'a> {
    Runner {
        root: path_of(storage),
        directory: None,
        file: None,
        lease: storage.lease.clone(),
        buffer: Vec::new(),
        auth,
        origin: Instant::now(),
    }
}

fn run_some(runner: &mut Runner, mut session: Session, mut steps: usize) -> Session {
    while steps > 0 {
        let Some(request) = session.request() else {
            break;
        };
        let event = runner.perform(request);
        session = session.step(event);
        steps -= 1;
    }
    session
}

fn run(
    storage: &Storage,
    session: Session,
    auth: Option<&AuthDotJson>,
) -> (Result<Outcome, StorageError>, Option<Rc<Lease>>) {
    let mut runner = runner(storage, auth);
    let session = run_some(&mut runner, session, usize::MAX);
    (session.into_result().unwrap(), runner.lease)
}

fn load(storage: &Storage) -> Result<Option<AuthDotJson>, StorageError> {
    match run(storage, storage.load(Platform::Linux), None).0 {
        Ok(Outcome::Loaded(auth)) => Ok(auth),
        Ok(other) => panic!("unexpected outcome {other:?}"),
        Err(error) => Err(error),
    }
}

fn save(storage: &Storage, auth: &AuthDotJson) -> Result<(), StorageError> {
    match run(storage, storage.save(Platform::Linux), Some(auth)).0 {
        Ok(Outcome::Saved) => Ok(()),
        Ok(other) => panic!("unexpected outcome {other:?}"),
        Err(error) => Err(error),
    }
}

fn delete(storage: &Storage) -> Result<bool, StorageError> {
    match run(storage, storage.delete(Platform::Linux), None).0 {
        Ok(Outcome::Deleted(found)) => Ok(found),
        Ok(other) => panic!("unexpected outcome {other:?}"),
        Err(error) => Err(error),
    }
}

fn transaction(storage: &Storage) -> Result<Storage, StorageError> {
    match run(storage, storage.transaction(), None) {
        (Ok(Outcome::Leased), Some(lease)) => Ok(storage.with_lease(lease)),
        (Ok(other), _) => panic!("unexpected outcome {other:?}"),
        (Err(error), _) => Err(error),
    }
}

fn store(path: &PathBuf) -> Storage {
    storage_at(path.to_str().unwrap().as_bytes().to_vec())
}

fn read_path(path: &PathBuf) -> Vec<u8> {
    let fd = rustix::fs::open(path, OFlags::RDONLY, Mode::empty()).unwrap();
    read_up_to(&fd, 1 << 30).unwrap()
}

fn write_path(path: &PathBuf, bytes: &[u8]) {
    let fd = rustix::fs::open(
        path,
        OFlags::WRONLY | OFlags::CREATE | OFlags::TRUNC,
        Mode::RUSR | Mode::WUSR,
    )
    .unwrap();
    assert_eq!(rustix::io::write(&fd, bytes).unwrap(), bytes.len());
}

#[test]
fn shared_storage_binds_private_directory_and_atomic_credentials() -> anyhow::Result<()> {
    let parent = tempfile::tempdir()?;
    let root = parent.path().join("auth");
    rustix::fs::mkdir(&root, Mode::RWXU)?;
    rustix::fs::chmod(&root, Mode::RWXU)?;
    let directory = rustix::fs::open(&root, OFlags::RDONLY, Mode::empty())?;
    let storage: Storage = storage_at(
        format!(
            "/proc/{}/fd/{}",
            rustix::process::getpid().as_raw_pid(),
            directory.as_raw_fd()
        )
        .into_bytes(),
    );
    let auth = read_auth_json(br#"{"OPENAI_API_KEY":"secret-a"}"#.as_slice(), parse).unwrap();
    save(&storage, &auth).unwrap();
    let old_file = rustix::fs::open(root.join("auth.json"), OFlags::RDONLY, Mode::empty())?;
    let replacement =
        read_auth_json(br#"{"OPENAI_API_KEY":"secret-b"}"#.as_slice(), parse).unwrap();
    rustix::fs::rename(&root, parent.path().join("renamed"))?;
    save(&storage, &replacement).unwrap();
    assert_eq!(load(&storage), Ok(Some(replacement)));
    let old_bytes = read_up_to(&old_file, MAX_AUTH_JSON_BYTES + 1)?;
    assert_eq!(read_auth_json(&old_bytes, parse), Ok(auth));
    let held = transaction(&storage).unwrap();
    let lock = rustix::fs::open(
        parent.path().join("renamed/auth.lock"),
        OFlags::RDONLY,
        Mode::empty(),
    )?;
    assert!(matches!(
        rustix::fs::flock(&lock, FlockOperation::NonBlockingLockExclusive),
        Err(Errno::WOULDBLOCK)
    ));
    drop(held);
    rustix::fs::flock(&lock, FlockOperation::NonBlockingLockExclusive)?;
    drop(lock);
    assert!(delete(&storage).unwrap());
    assert_eq!(load(&storage), Ok(None));
    Ok(())
}

#[test]
fn shared_storage_and_import_reject_untrusted_authority_and_payloads() -> anyhow::Result<()> {
    let root = tempfile::tempdir()?;
    let path = root.path().canonicalize()?;
    rustix::fs::chmod(&path, Mode::from_raw_mode(0o755))?;
    let storage = store(&path);
    assert!(load(&storage).is_err());
    rustix::fs::chmod(&path, Mode::from_raw_mode(0o700))?;
    let target = path.join("outside");
    write_path(&target, b"untouched");
    rustix::fs::symlink(&target, path.join("auth.json"))?;
    assert!(load(&storage).is_err());
    assert_eq!(read_path(&target), b"untouched");
    for payload in [
        b"{}".as_slice(),
        b"{invalid}",
        br#"{"OPENAI_API_KEY":""}"#,
        br#"{"auth_mode":"chatgpt","tokens":null}"#,
    ] {
        assert!(read_auth_json(payload, parse).is_err());
    }
    let spaces = vec![b' '; (MAX_AUTH_JSON_BYTES + 1) as usize];
    assert!(read_auth_json(&spaces, parse).is_err());
    for route in ["relative", "/proc/self/fd/0", "/proc/1/fd/nope"] {
        assert!(load(&storage_at(route.as_bytes().to_vec())).is_err());
    }
    Ok(())
}

#[test]
fn leased_storage_refuses_another_directory() -> anyhow::Result<()> {
    let parent = tempfile::tempdir()?;
    let parent_path = parent.path().canonicalize()?;
    let root = parent_path.join("auth");
    rustix::fs::mkdir(&root, Mode::RWXU)?;
    let storage = store(&root);
    let held = transaction(&storage).unwrap();
    let auth = parse(br#"{"OPENAI_API_KEY":"secret"}"#).unwrap();
    assert_eq!(save(&held, &auth), Ok(()));
    assert_eq!(load(&held), Ok(Some(auth.clone())));
    rustix::fs::rename(&root, parent_path.join("elsewhere"))?;
    rustix::fs::mkdir(&root, Mode::RWXU)?;
    assert_eq!(save(&held, &auth), Err(StorageError::DirectoryChanged));
    assert_eq!(load(&held), Err(StorageError::DirectoryChanged));
    assert_eq!(delete(&held), Err(StorageError::DirectoryChanged));
    Ok(())
}

#[test]
fn linked_and_open_credential_files_are_refused() -> anyhow::Result<()> {
    let parent = tempfile::tempdir()?;
    let root = parent.path().canonicalize()?;
    rustix::fs::chmod(&root, Mode::RWXU)?;
    let storage = store(&root);
    let file = root.join("auth.json");
    assert_eq!(delete(&storage), Ok(false));
    write_path(&file, br#"{"OPENAI_API_KEY":"secret"}"#);
    assert!(load(&storage).unwrap().is_some());
    rustix::fs::link(&file, root.join("second"))?;
    assert_eq!(load(&storage), Err(StorageError::FileAuthority));
    rustix::fs::unlink(root.join("second"))?;
    rustix::fs::chmod(&file, Mode::from_raw_mode(0o640))?;
    assert_eq!(load(&storage), Err(StorageError::FileAuthority));
    Ok(())
}

#[test]
fn symlinked_directories_are_refused() -> anyhow::Result<()> {
    let parent = tempfile::tempdir()?;
    let root = parent.path().canonicalize()?;
    let real = root.join("real");
    let alias = root.join("alias");
    rustix::fs::mkdir(&real, Mode::RWXU)?;
    rustix::fs::symlink(&real, &alias)?;
    assert_eq!(load(&store(&real)), Ok(None));
    assert_eq!(load(&store(&alias)), Err(StorageError::Route));
    Ok(())
}

#[test]
fn saves_leave_private_files_and_no_temporary_ones() -> anyhow::Result<()> {
    let parent = tempfile::tempdir()?;
    let root = parent.path().canonicalize()?;
    rustix::fs::chmod(&root, Mode::RWXU)?;
    let storage = store(&root);
    let auth = parse(br#"{"OPENAI_API_KEY":"secret"}"#).unwrap();
    save(&storage, &auth).unwrap();
    let found = rustix::fs::stat(root.join("auth.json"))?;
    assert_eq!(found.st_mode & 0o777, 0o600);
    let names: Vec<String> = root
        .read_dir()?
        .map(|entry| entry.unwrap().file_name().into_string().unwrap())
        .collect();
    assert_eq!(names.len(), 2);
    assert!(names.contains(&"auth.json".to_string()));
    assert!(names.contains(&"auth.lock".to_string()));
    assert_eq!(read_path(&root.join("auth.lock")), b"");
    write_path(&root.join("auth.lock"), b"note");
    let blank = parse(br#"{"OPENAI_API_KEY":" "}"#).unwrap();
    assert_eq!(
        save(&storage, &blank),
        Err(StorageError::Document(shared_auth::credentials::AuthJsonError::Unusable))
    );
    assert_eq!(load(&storage), Ok(Some(auth)));
    assert_eq!(root.read_dir()?.count(), 2);
    assert_eq!(delete(&storage), Ok(true));
    assert_eq!(read_path(&root.join("auth.lock")), b"note");
    Ok(())
}

#[test]
fn a_save_that_cannot_rename_leaves_no_trace() -> anyhow::Result<()> {
    let parent = tempfile::tempdir()?;
    let root = parent.path().canonicalize()?;
    rustix::fs::chmod(&root, Mode::RWXU)?;
    rustix::fs::mkdir(root.join("auth.json"), Mode::RWXU)?;
    let auth = parse(br#"{"OPENAI_API_KEY":"secret"}"#).unwrap();
    assert!(matches!(save(&store(&root), &auth), Err(StorageError::System(_))));
    let mut names: Vec<String> = root
        .read_dir()?
        .map(|entry| entry.unwrap().file_name().into_string().unwrap())
        .collect();
    names.sort();
    assert_eq!(names, ["auth.json", "auth.lock"]);
    Ok(())
}

#[test]
fn loads_between_the_steps_of_a_save_see_old_or_new() -> anyhow::Result<()> {
    let parent = tempfile::tempdir()?;
    let root = parent.path().canonicalize()?;
    rustix::fs::chmod(&root, Mode::RWXU)?;
    let storage = store(&root);
    let old = parse(br#"{"OPENAI_API_KEY":"secret-a"}"#).unwrap();
    let new = parse(br#"{"OPENAI_API_KEY":"secret-b"}"#).unwrap();
    save(&storage, &old).unwrap();
    let mut saving = runner(&storage, Some(&new));
    let mut session = storage.save(Platform::Linux);
    let mut replaced = false;
    while let Some(request) = session.request() {
        let renames = matches!(request, Request::Rename { .. });
        session = run_some(&mut saving, session, 1);
        replaced = replaced || renames;
        let expected = if replaced { &new } else { &old };
        assert_eq!(load(&storage), Ok(Some(expected.clone())));
    }
    assert!(replaced);
    assert_eq!(session.into_result(), Some(Ok(Outcome::Saved)));
    Ok(())
}

#[test]
fn loads_that_a_save_overtakes_see_old_or_new() -> anyhow::Result<()> {
    let parent = tempfile::tempdir()?;
    let root = parent.path().canonicalize()?;
    rustix::fs::chmod(&root, Mode::RWXU)?;
    let storage = store(&root);
    let old = parse(br#"{"OPENAI_API_KEY":"secret-a"}"#).unwrap();
    let new = parse(br#"{"OPENAI_API_KEY":"secret-b"}"#).unwrap();
    for steps in 0..7 {
        save(&storage, &old).unwrap();
        let mut loading = runner(&storage, None);
        let session = run_some(&mut loading, storage.load(Platform::Linux), steps);
        let next = session.request();
        save(&storage, &new).unwrap();
        let session = run_some(&mut loading, session, usize::MAX);
        let expected = match next {
            // The file that is open has no name left.
            Some(Request::StatFile) => Err(StorageError::FileAuthority),
            Some(Request::Read { .. }) | Some(Request::Decode) | None => {
                Ok(Outcome::Loaded(Some(old.clone())))
            }
            Some(_) => Ok(Outcome::Loaded(Some(new.clone()))),
        };
        assert_eq!(session.into_result(), Some(expected));
    }
    Ok(())
}

#[test]
fn loads_that_a_delete_overtakes_see_old_or_none() -> anyhow::Result<()> {
    let parent = tempfile::tempdir()?;
    let root = parent.path().canonicalize()?;
    rustix::fs::chmod(&root, Mode::RWXU)?;
    let storage = store(&root);
    let auth = parse(br#"{"OPENAI_API_KEY":"secret"}"#).unwrap();
    for (steps, expected) in [(3, None), (5, Some(auth.clone()))] {
        save(&storage, &auth).unwrap();
        let mut loading = runner(&storage, None);
        let session = run_some(&mut loading, storage.load(Platform::Linux), steps);
        assert_eq!(delete(&storage), Ok(true));
        let session = run_some(&mut loading, session, usize::MAX);
        assert_eq!(session.into_result(), Some(Ok(Outcome::Loaded(expected))));
    }
    Ok(())
}

#[test]
fn operations_follow_each_other() -> anyhow::Result<()> {
    let parent = tempfile::tempdir()?;
    let root = parent.path().canonicalize()?;
    rustix::fs::chmod(&root, Mode::RWXU)?;
    let storage = store(&root);
    let auth = parse(br#"{"OPENAI_API_KEY":"secret"}"#).unwrap();
    save(&storage, &auth).unwrap();
    assert_eq!(load(&storage), Ok(Some(auth.clone())));
    assert_eq!(load(&storage), Ok(Some(auth.clone())));
    let held = transaction(&storage).unwrap();
    assert_eq!(load(&held), Ok(Some(auth)));
    drop(held);
    let held = transaction(&storage).unwrap();
    assert_eq!(delete(&held), Ok(true));
    assert_eq!(load(&held), Ok(None));
    assert_eq!(delete(&held), Ok(false));
    Ok(())
}
