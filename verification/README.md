# shared_auth

Shared file credentials: several processes keep one set of durable credentials in
one private directory. `auth.json` holds them, `auth.lock` orders the writers, and
a save replaces the file as a whole through a temporary file and a rename.

The library decides, and leaves files, locks and clocks to its caller. An operation
is a `session::Session`: it asks for one request at a time, is told how it went, and
ends with an outcome or an error. The one thing that the library draws for itself is
the random suffix of a temporary file.

- `src/credentials.rs`: which credential documents are accepted
- `src/path.rs`: path components and the routes to the directory
- `src/names.rs`: the files in the directory
- `src/error.rs`: errors and their messages
- `src/session.rs`: the operations, step by step
- `src/storage.rs`: when the shared store is used, and how its operations begin
- `src/laws.rs`: what holds of every session, whatever it is told
- `src/disk.rs`: a model of the directory and of the calls that sessions ask for
- `src/effects.rs`: what an operation does to the directory
- `src/sequences.rs`: what holds across operations, one after or beside the other
- `app/`: runs sessions against the operating system
- `tests/`: sessions told by hand, and sessions on a real file system
