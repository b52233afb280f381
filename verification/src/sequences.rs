//! What holds across operations: one after the other, and one beside the other.

use crate::credentials::{oversized, read_part, reading_part_suffices};
use crate::disk::{performed, reported, stored, Codec, Hands, Run, Scene};
use crate::effects::{
    deletes_are_atomic, deletes_remove_the_credentials, loads_report_the_credentials,
    opened_credentials_do_not_change, saves_are_atomic, saves_replace_the_credentials,
    successes_are_trusted, trusted_locks_are_taken, welcoming_directories_are_entered,
};
use crate::error::{Fault, StorageError};
use crate::laws::{
    after, after_one_more, causes_at, errors_have_causes, fresh, reports,
    sessions_stay_well_formed,
};
use crate::names::FileName;
use crate::session::{ended, pending, Event, Goal, Outcome, Phase, Session};
use vstd::prelude::*;

verus! {

/// Whether no event reports a failed system call.
pub open spec fn unfailing(events: Seq<Event>) -> bool {
    forall|i: int, fault: Fault| 0 <= i < events.len() ==> !#[trigger] reports(events[i], fault)
}

/// Whether `later` is a run on the directory that `earlier` left, by the same path and
/// under no lease but the one that `earlier` ended with.
pub open spec fn follows(earlier: Run, later: Run) -> bool {
    &&& later.first_disk() == earlier.last_disk()
    &&& later.session.root@ == earlier.session.root@
    &&& later.session.leased ==> earlier.last_session().leased && later.scenes[0].hands.lease
        == earlier.last_scene().hands.lease
}

/// A load that follows an operation that ended well is refused for nothing but the
/// document, its file, or a system call that failed.
proof fn following_loads(codec: Codec, earlier: Run, load: Run)
    requires
        earlier.faithful(codec),
        ended(earlier.last_session()) matches Some(Ok(_)),
        load.session.goal == Goal::Load,
        load.faithful(codec),
        follows(earlier, load),
    ensures
        ended(load.last_session()) matches Some(Err(error)) ==> error is Document || error
            == StorageError::FileAuthority || error is System,
        unfailing(load.events) ==> !(ended(load.last_session()) matches Some(
            Err(StorageError::System(_)),
        )),
{
    successes_are_trusted(codec, earlier);
    let n = load.events.len() as int;
    assert(load.events.take(n) =~= load.events);
    welcoming_directories_are_entered(codec, load, n);
    no_timeout_in_loads(load, n);
    if let Some(Err(StorageError::System(fault))) = ended(load.last_session()) {
        let error = StorageError::System(fault);
        errors_have_causes(load.session, load.events, error);
        let i = choose|i: int|
            0 <= i < load.events.len() && #[trigger] causes_at(
                load.session,
                load.events,
                i,
                error,
            );
        assert(reports(load.events[i], fault));
    }
}

proof fn no_timeout_in_loads(load: Run, i: int)
    requires
        load.session.goal == Goal::Load,
        fresh(load.session),
        0 <= i <= load.events.len(),
    ensures
        ended(load.session_at(i)) != Some(
            Err::<Outcome, StorageError>(StorageError::LockTimedOut),
        ),
    decreases i,
{
    if i == 0 {
        assert(load.events.take(0) =~= Seq::empty());
    } else {
        no_timeout_in_loads(load, i - 1);
        after_one_more(load.session, load.events, i - 1);
        sessions_stay_well_formed(load.session, load.events.take(i - 1));
    }
}

/// What was saved is what is loaded: a load on the directory that a save left ends
/// with what the saved bytes parse to, unless a system call fails.
pub proof fn loads_give_back_what_was_saved(codec: Codec, save: Run, load: Run)
    requires
        save.session.goal == Goal::Save,
        save.faithful(codec),
        ended(save.last_session()) matches Some(Ok(_)),
        load.session.goal == Goal::Load,
        load.faithful(codec),
        follows(save, load),
    ensures
        (codec.decode)(codec.encoded) is Some,
        ended(load.last_session()) matches Some(result) ==> result == Ok::<Outcome, StorageError>(
            Outcome::Loaded((codec.decode)(codec.encoded)),
        ) || result matches Err(StorageError::System(_)),
        unfailing(load.events) ==> (ended(load.last_session()) matches Some(result) ==> result
            == Ok::<Outcome, StorageError>(Outcome::Loaded((codec.decode)(codec.encoded)))),
{
    saves_replace_the_credentials(codec, save);
    loads_report_the_credentials(codec, load);
    following_loads(codec, save, load);
}

/// After a delete there is nothing to load: a load on the directory that it left ends
/// with nothing, unless a system call fails.
pub proof fn nothing_is_loaded_after_a_delete(codec: Codec, delete: Run, load: Run)
    requires
        delete.session.goal == Goal::Delete,
        delete.faithful(codec),
        ended(delete.last_session()) matches Some(Ok(_)),
        load.session.goal == Goal::Load,
        load.faithful(codec),
        follows(delete, load),
    ensures
        ended(load.last_session()) matches Some(result) ==> result == Ok::<Outcome, StorageError>(
            Outcome::Loaded(None),
        ) || result matches Err(StorageError::System(_)),
        unfailing(load.events) ==> (ended(load.last_session()) matches Some(result) ==> result
            == Ok::<Outcome, StorageError>(Outcome::Loaded(None))),
{
    deletes_remove_the_credentials(codec, delete);
    loads_report_the_credentials(codec, load);
    following_loads(codec, delete, load);
}

/// A second delete finds nothing: one that ends well on the directory that a delete
/// left says that there were no credentials.
pub proof fn second_deletes_find_nothing(codec: Codec, earlier: Run, delete: Run)
    requires
        earlier.session.goal == Goal::Delete,
        earlier.faithful(codec),
        ended(earlier.last_session()) matches Some(Ok(_)),
        delete.session.goal == Goal::Delete,
        delete.faithful(codec),
        follows(earlier, delete),
    ensures
        ended(delete.last_session()) matches Some(Ok(outcome)) ==> outcome == Outcome::Deleted(
            false,
        ),
{
    deletes_remove_the_credentials(codec, earlier);
    if let Some(Ok(_)) = ended(delete.last_session()) {
        deletes_remove_the_credentials(codec, delete);
    }
}

/// Loads agree: a load after a load ends as that did, unless a system call fails.
pub proof fn loads_agree(codec: Codec, earlier: Run, load: Run)
    requires
        earlier.session.goal == Goal::Load,
        earlier.faithful(codec),
        ended(earlier.last_session()) matches Some(Ok(_)),
        load.session.goal == Goal::Load,
        load.faithful(codec),
        follows(earlier, load),
    ensures
        ended(load.last_session()) matches Some(result) ==> ended(earlier.last_session()) == Some(
            result,
        ) || result matches Err(StorageError::System(_)),
        unfailing(load.events) && ended(load.last_session()) is Some ==> ended(load.last_session())
            == ended(earlier.last_session()),
{
    loads_report_the_credentials(codec, earlier);
    loads_report_the_credentials(codec, load);
    following_loads(codec, earlier, load);
}

/// Whoever has taken the lock leaves it takeable: a transaction on the directory that
/// an operation left that took the lock itself fails only if a system call fails or
/// the lock does not come free in time.
pub proof fn the_lock_can_be_taken_again(codec: Codec, earlier: Run, transaction: Run)
    requires
        earlier.faithful(codec),
        !earlier.session.leased,
        earlier.last_session().leased,
        ended(earlier.last_session()) matches Some(Ok(_)),
        transaction.session.goal == Goal::Transaction,
        transaction.faithful(codec),
        follows(earlier, transaction),
    ensures
        ended(transaction.last_session()) matches Some(Err(error)) ==> error
            == StorageError::LockTimedOut || error is System,
{
    successes_are_trusted(codec, earlier);
    let n = transaction.events.len() as int;
    assert(transaction.events.take(n) =~= transaction.events);
    welcoming_directories_are_entered(codec, transaction, n);
    trusted_locks_are_taken(codec, transaction, n);
}

/// A load that runs beside another operation. Its event `i` falls into the moment
/// `moments[i]` of that operation.
pub struct Beside {
    pub other: Run,
    pub session: Session,
    pub events: Seq<Event>,
    pub moments: Seq<int>,
    pub hands: Seq<Hands>,
}

impl Beside {
    /// The session after the first `i` events.
    pub open spec fn session_at(self, i: int) -> Session {
        after(self.session, self.events.take(i))
    }

    /// Whether the other operation is a faithful run, and each event of the load
    /// answers a request that was performed on the directory as the other operation
    /// had it at that moment. A load changes nothing there.
    pub open spec fn faithful(self, codec: Codec) -> bool {
        &&& self.other.faithful(codec)
        &&& fresh(self.session)
        &&& self.session.goal == Goal::Load
        &&& self.moments.len() == self.events.len()
        &&& self.hands.len() == self.events.len() + 1
        &&& forall|i: int|
            0 <= i < self.moments.len() ==> 0 <= #[trigger] self.moments[i]
                < self.other.scenes.len()
        &&& forall|i: int, j: int|
            0 <= i <= j < self.moments.len() ==> #[trigger] self.moments[i]
                <= #[trigger] self.moments[j]
        &&& forall|i: int|
            0 <= i < self.events.len() ==> #[trigger] beside_performed(self, codec, i)
    }
}

/// Whether event `i` of a load beside another operation was performed.
pub open spec fn beside_performed(load: Beside, codec: Codec, i: int) -> bool {
    let disk = load.other.disk_at(load.moments[i]);
    pending(load.session_at(i)) matches Some(request) && performed(
        codec,
        Scene { disk, hands: load.hands[i] },
        request,
        load.events[i],
        Scene { disk, hands: load.hands[i + 1] },
    )
}

/// Whether the file that is open after `i` events was the credentials at moment `j`.
spec fn opened_at(load: Beside, i: int, j: int) -> bool {
    let disk = load.other.disk_at(j);
    &&& 0 <= j < load.other.scenes.len()
    &&& i > 0 && j <= load.moments[i - 1]
    &&& disk.names.contains_key(FileName::Credentials)
    &&& disk.names[FileName::Credentials] == load.hands[i].open
}

/// Whether `document` was what the credentials held at moment `j`.
pub open spec fn stored_at(run: Run, j: int, document: Option<Seq<u8>>) -> bool {
    0 <= j < run.scenes.len() && stored(run.disk_at(j)) == document
}

/// What holds in each phase of a load beside another operation.
spec fn beside_invariant(codec: Codec, load: Beside, i: int) -> bool {
    let session = load.session_at(i);
    match session.phase {
        Phase::StatFile | Phase::Read => exists|j: int| #[trigger] opened_at(load, i, j),
        Phase::Decode => !oversized(load.hands[i].buffer) && exists|j: int| #[trigger]
            stored_at(load.other, j, Some(load.hands[i].buffer)),
        Phase::Ended(Ok(outcome)) => exists|j: int, document: Option<Seq<u8>>| #[trigger]
            stored_at(load.other, j, document) && reported(codec, document) == Ok::<
                Outcome,
                StorageError,
            >(outcome),
        Phase::Ended(Err(StorageError::Document(cause))) => exists|
            j: int,
            document: Option<Seq<u8>>,
        | #[trigger]
            stored_at(load.other, j, document) && reported(codec, document) == Err::<
                Outcome,
                StorageError,
            >(StorageError::Document(cause)),
        _ => true,
    }
}

proof fn beside_trail(codec: Codec, load: Beside, i: int)
    requires
        load.faithful(codec),
        0 <= i <= load.events.len(),
    ensures
        beside_invariant(codec, load, i),
    decreases i,
{
    if i == 0 {
        assert(load.events.take(0) =~= Seq::empty());
    } else {
        beside_trail(codec, load, i - 1);
        assert(beside_performed(load, codec, i - 1));
        after_one_more(load.session, load.events, i - 1);
        sessions_stay_well_formed(load.session, load.events.take(i - 1));
        let session = load.session_at(i - 1);
        let event = load.events[i - 1];
        let m = load.moments[i - 1];
        let disk = load.other.disk_at(m);
        match session.phase {
            Phase::OpenFile => {
                assert(stored_at(load.other, m, stored(disk)));
                if load.session_at(i).phase is StatFile {
                    assert(opened_at(load, i, m));
                } else if load.session_at(i).phase matches Phase::Ended(Ok(_)) {
                    assert(reported(codec, None) == Ok::<Outcome, StorageError>(
                        Outcome::Loaded(None),
                    ));
                }
            },
            Phase::StatFile => {
                let j = choose|j: int| #[trigger] opened_at(load, i - 1, j);
                assert(load.moments[i - 2] <= load.moments[i - 1]);
                assert(opened_at(load, i, j));
            },
            Phase::Read => {
                let j = choose|j: int| #[trigger] opened_at(load, i - 1, j);
                assert(load.moments[i - 2] <= load.moments[i - 1]);
                opened_credentials_do_not_change(codec, load.other, j, m);
                let document = disk.contents[load.hands[i - 1].open];
                reading_part_suffices(document);
                assert(stored_at(load.other, j, Some(document)));
                if let Event::Bytes(Ok(bytes)) = event {
                    assert(bytes@ == read_part(document));
                    if !oversized(document) {
                        assert(stored_at(load.other, j, Some(load.hands[i].buffer)));
                    }
                }
            },
            Phase::Decode => {
                let j = choose|j: int| #[trigger]
                    stored_at(load.other, j, Some(load.hands[i - 1].buffer));
                assert(stored_at(load.other, j, Some(load.hands[i - 1].buffer)));
            },
            _ => {},
        }
    }
}

/// Whether a load has come to a verdict on the credentials.
pub open spec fn conclusive(result: Result<Outcome, StorageError>) -> bool {
    match result {
        Ok(_) => true,
        Err(error) => error is Document,
    }
}

/// A load that runs beside another operation reports the credentials as they were,
/// whole, at one moment of that operation.
pub proof fn loads_see_one_moment(codec: Codec, load: Beside)
    requires
        load.faithful(codec),
    ensures
        ended(load.session_at(load.events.len() as int)) matches Some(result) ==> (conclusive(
            result,
        ) ==> exists|j: int, document: Option<Seq<u8>>| #[trigger]
            stored_at(load.other, j, document) && reported(codec, document) == result),
{
    beside_trail(codec, load, load.events.len() as int);
}

/// A load that runs beside a save reports the former credentials or the new ones,
/// and in either case the whole document.
pub proof fn loads_beside_a_save_see_old_or_new(codec: Codec, load: Beside)
    requires
        load.faithful(codec),
        load.other.session.goal == Goal::Save,
    ensures
        ended(load.session_at(load.events.len() as int)) matches Some(result) ==> (conclusive(
            result,
        ) ==> result == reported(codec, stored(load.other.first_disk())) || result == reported(
            codec,
            Some(codec.encoded),
        )),
{
    loads_see_one_moment(codec, load);
    if let Some(result) = ended(load.session_at(load.events.len() as int)) {
        if conclusive(result) {
            let (j, document) = choose|j: int, document: Option<Seq<u8>>| #[trigger]
                stored_at(load.other, j, document) && reported(codec, document) == result;
            saves_are_atomic(codec, load.other, j);
        }
    }
}

/// A load that runs beside a delete reports the former credentials, whole, or none.
pub proof fn loads_beside_a_delete_see_old_or_none(codec: Codec, load: Beside)
    requires
        load.faithful(codec),
        load.other.session.goal == Goal::Delete,
    ensures
        ended(load.session_at(load.events.len() as int)) matches Some(result) ==> (conclusive(
            result,
        ) ==> result == reported(codec, stored(load.other.first_disk())) || result == Ok::<
            Outcome,
            StorageError,
        >(Outcome::Loaded(None))),
{
    loads_see_one_moment(codec, load);
    if let Some(result) = ended(load.session_at(load.events.len() as int)) {
        if conclusive(result) {
            let (j, document) = choose|j: int, document: Option<Seq<u8>>| #[trigger]
                stored_at(load.other, j, document) && reported(codec, document) == result;
            deletes_are_atomic(codec, load.other, j);
        }
    }
}

} // verus!
