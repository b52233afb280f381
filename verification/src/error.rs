//! What can go wrong with shared credentials.

use crate::credentials::AuthJsonError;
use vstd::prelude::*;

verus! {

/// What a failed system call says of its cause.
#[derive(Clone, Copy, Debug, PartialEq, Eq, Structural)]
pub enum FaultKind {
    /// There is no such file.
    NotFound,
    /// Anything else.
    Other,
}

/// A failed system call. The number is the caller's own, by which it finds the
/// failure again.
#[derive(Clone, Copy, Debug, PartialEq, Eq, Structural)]
pub struct Fault {
    pub kind: FaultKind,
    pub id: u64,
}

/// Why an operation on the shared credential directory failed.
#[derive(Clone, Copy, Debug, PartialEq, Eq, Structural)]
pub enum StorageError {
    /// The platform has no shared credential directory.
    UnsupportedPlatform,
    /// The path of the directory is relative, or goes through a symlink.
    Route,
    /// The directory belongs to somebody else, or is not private.
    DirectoryAuthority,
    /// The directory is not the one that the lease was taken on.
    DirectoryChanged,
    /// A file in the directory is not a private regular file of one's own.
    FileAuthority,
    /// The writer lock did not come free in time.
    LockTimedOut,
    /// The credential document is refused.
    Document(AuthJsonError),
    /// A system call failed.
    System(Fault),
}

/// The class of an error.
#[derive(Clone, Copy, Debug, PartialEq, Eq, Structural)]
pub enum ErrorKind {
    TimedOut,
    Other,
    /// That of the system call that failed.
    System(Fault),
}

/// The message of a refused credential document.
pub open spec fn document_message(error: AuthJsonError) -> Seq<char> {
    match error {
        AuthJsonError::TooLarge => "auth JSON exceeds 1 MiB"@,
        AuthJsonError::Invalid => "invalid auth JSON"@,
        AuthJsonError::Unusable => "auth JSON is missing usable durable credentials"@,
    }
}

/// The message of an error, where it is not that of a system call.
pub open spec fn storage_message(error: StorageError) -> Option<Seq<char>> {
    match error {
        StorageError::UnsupportedPlatform => Some("CODEX_AUTH_HOME is supported only on Linux"@),
        StorageError::Route => Some(
            "CODEX_AUTH_HOME must be an absolute directory without symlinks"@,
        ),
        StorageError::DirectoryAuthority => Some(
            "CODEX_AUTH_HOME must be owned by the current user and private (0700)"@,
        ),
        StorageError::DirectoryChanged => Some("CODEX_AUTH_HOME changed during authentication"@),
        StorageError::FileAuthority => Some(
            "shared auth files must be private, owned regular files"@,
        ),
        StorageError::LockTimedOut => Some("shared auth writer lock timed out"@),
        StorageError::Document(cause) => Some(document_message(cause)),
        StorageError::System(_) => None,
    }
}

/// The class of an error.
pub open spec fn storage_error_kind(error: StorageError) -> ErrorKind {
    match error {
        StorageError::LockTimedOut => ErrorKind::TimedOut,
        StorageError::System(fault) => ErrorKind::System(fault),
        _ => ErrorKind::Other,
    }
}

impl AuthJsonError {
    /// The message that goes with the refusal.
    pub fn message(&self) -> (text: &'static str)
        ensures
            text@ == document_message(*self),
    {
        match self {
            AuthJsonError::TooLarge => "auth JSON exceeds 1 MiB",
            AuthJsonError::Invalid => "invalid auth JSON",
            AuthJsonError::Unusable => "auth JSON is missing usable durable credentials",
        }
    }
}

impl StorageError {
    /// The message that goes with the error. A failed system call has its own.
    pub fn message(&self) -> (text: Option<&'static str>)
        ensures
            text is Some <==> storage_message(*self) is Some,
            text matches Some(found) ==> storage_message(*self) == Some(found@),
    {
        match self {
            StorageError::UnsupportedPlatform => Some("CODEX_AUTH_HOME is supported only on Linux"),
            StorageError::Route => Some(
                "CODEX_AUTH_HOME must be an absolute directory without symlinks",
            ),
            StorageError::DirectoryAuthority => Some(
                "CODEX_AUTH_HOME must be owned by the current user and private (0700)",
            ),
            StorageError::DirectoryChanged => Some("CODEX_AUTH_HOME changed during authentication"),
            StorageError::FileAuthority => Some(
                "shared auth files must be private, owned regular files",
            ),
            StorageError::LockTimedOut => Some("shared auth writer lock timed out"),
            StorageError::Document(cause) => Some(cause.message()),
            StorageError::System(_) => None,
        }
    }

    /// The class of the error.
    pub fn kind(&self) -> (kind: ErrorKind)
        ensures
            kind == storage_error_kind(*self),
    {
        match self {
            StorageError::LockTimedOut => ErrorKind::TimedOut,
            StorageError::System(fault) => ErrorKind::System(*fault),
            _ => ErrorKind::Other,
        }
    }
}

/// Only a lock that did not come free in time is a time-out, and only a failed system
/// call is passed on as what it was, without a message of its own.
pub proof fn kinds_tell_errors_apart(error: StorageError, fault: Fault)
    ensures
        storage_error_kind(error) == ErrorKind::TimedOut <==> error == StorageError::LockTimedOut,
        storage_error_kind(error) == ErrorKind::System(fault) <==> error == StorageError::System(
            fault,
        ),
        storage_message(error) is None <==> error is System,
{
}

/// Every error that is no failed system call has a message of its own.
pub proof fn messages_tell_errors_apart(a: StorageError, b: StorageError)
    requires
        !(a is System),
        storage_message(a) == storage_message(b),
    ensures
        a == b,
{
    reveal_strlit("CODEX_AUTH_HOME is supported only on Linux");
    reveal_strlit("CODEX_AUTH_HOME must be an absolute directory without symlinks");
    reveal_strlit("CODEX_AUTH_HOME must be owned by the current user and private (0700)");
    reveal_strlit("CODEX_AUTH_HOME changed during authentication");
    reveal_strlit("shared auth files must be private, owned regular files");
    reveal_strlit("shared auth writer lock timed out");
    reveal_strlit("auth JSON exceeds 1 MiB");
    reveal_strlit("invalid auth JSON");
    reveal_strlit("auth JSON is missing usable durable credentials");
    assert("CODEX_AUTH_HOME is supported only on Linux"@.len() == 42);
    assert("CODEX_AUTH_HOME must be an absolute directory without symlinks"@.len() == 62);
    assert("CODEX_AUTH_HOME must be owned by the current user and private (0700)"@.len() == 68);
    assert("CODEX_AUTH_HOME changed during authentication"@.len() == 45);
    assert("shared auth files must be private, owned regular files"@.len() == 54);
    assert("shared auth writer lock timed out"@.len() == 33);
    assert("auth JSON exceeds 1 MiB"@.len() == 23);
    assert("invalid auth JSON"@.len() == 17);
    assert("auth JSON is missing usable durable credentials"@.len() == 47);
    assert(storage_message(b) is Some);
    assert(storage_message(a)->0.len() == storage_message(b)->0.len());
}

/// What `message` and `kind` return.
pub proof fn errors_say_what_they_are(
    error: StorageError,
    text: Option<&'static str>,
    kind: ErrorKind,
    refusal: AuthJsonError,
    refusal_text: &'static str,
)
    requires
        call_ensures(StorageError::message, (&error,), text),
        call_ensures(StorageError::kind, (&error,), kind),
        call_ensures(AuthJsonError::message, (&refusal,), refusal_text),
    ensures
        text is None <==> error is System,
        error == StorageError::Document(refusal) ==> (text matches Some(found) && found@
            == refusal_text@),
        kind == ErrorKind::TimedOut <==> error == StorageError::LockTimedOut,
        error matches StorageError::System(fault) ==> kind == ErrorKind::System(fault),
{
}

} // verus!
