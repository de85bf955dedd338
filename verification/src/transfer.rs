use vstd::prelude::*;
use crate::client::GitSqlClient;
use crate::client::ObjectRecord;
use crate::client::PendingRecord;
use crate::client::StoreView;
use crate::client::after_inserts;
use crate::error::Error;
use crate::local::LocalObject;
use crate::local::LocalRepository;
use crate::local::local_object;
use crate::local::sound;
use crate::object::check_digest;
use crate::object::encoded_bytes;
use crate::object::object_digest;
use crate::object::object_id;
use crate::object::verified_encoding;

verus! {

/// What the store holds of a local object once it is transferred.
pub open spec fn record_of(object: LocalObject) -> ObjectRecord {
    ObjectRecord { kind: object.kind, size: object.data@.len(), data: object.data@ }
}

/// The durable objects after the identifiers `hashes` were inserted one
/// after another, each with the object that the local database holds for
/// it; an identifier that is stored already keeps its object.
pub open spec fn with_objects(
    objects: Map<Seq<char>, ObjectRecord>,
    local: Seq<LocalObject>,
    hashes: Seq<String>,
) -> Map<Seq<char>, ObjectRecord>
    decreases hashes.len(),
{
    if hashes.len() == 0 {
        objects
    } else {
        let before = with_objects(objects, local, hashes.drop_last());
        let id = hashes.last()@;
        match local_object(local, id) {
            Some(object) => if before.contains_key(id) {
                before
            } else {
                before.insert(id, record_of(object))
            },
            None => before,
        }
    }
}

/// The number of identifiers at the front of `hashes` that are all sound.
pub open spec fn sound_prefix(local: Seq<LocalObject>, hashes: Seq<String>) -> nat
    decreases hashes.len(),
{
    if hashes.len() == 0 {
        0
    } else {
        let before = sound_prefix(local, hashes.drop_last());
        if before == hashes.len() - 1 && sound(local, hashes.last()@) {
            hashes.len()
        } else {
            before
        }
    }
}

/// Every identifier of `hashes` is sound.
pub open spec fn all_sound(local: Seq<LocalObject>, hashes: Seq<String>) -> bool {
    forall|i: int| 0 <= i < hashes.len() ==> sound(local, (#[trigger] hashes[i])@)
}

/// `e` is the error that an unsound identifier fails with: a protocol
/// failure where the local database cannot read it, else a hash mismatch
/// that names the identifier and the digest computed.
pub open spec fn is_failure_of(e: Error, local: Seq<LocalObject>, id: Seq<char>) -> bool {
    match local_object(local, id) {
        None => e == Error::ProtocolFailure,
        Some(object) => match e {
            Error::HashMismatch { expected, actual } => expected@ == id && actual@ == object_digest(
                object.kind,
                object.data@.len(),
                object.data@,
            ),
            _ => false,
        },
    }
}

/// The durable objects after one unit of work. A unit stops at its first
/// unsound identifier; an atomic unit that stops leaves nothing behind.
pub open spec fn unit_objects(
    objects: Map<Seq<char>, ObjectRecord>,
    local: Seq<LocalObject>,
    hashes: Seq<String>,
    atomic: bool,
) -> Map<Seq<char>, ObjectRecord> {
    let reached = sound_prefix(local, hashes);
    if atomic && reached < hashes.len() {
        objects
    } else {
        with_objects(objects, local, hashes.take(reached as int))
    }
}

/// The durable objects after the units were worked off one after another.
pub open spec fn units_objects(
    objects: Map<Seq<char>, ObjectRecord>,
    local: Seq<LocalObject>,
    units: Seq<Vec<String>>,
    atomic: bool,
) -> Map<Seq<char>, ObjectRecord>
    decreases units.len(),
{
    if units.len() == 0 {
        objects
    } else {
        unit_objects(
            units_objects(objects, local, units.drop_last(), atomic),
            local,
            units.last()@,
            atomic,
        )
    }
}

/// The sound prefix ends at the first unsound identifier.
pub proof fn lemma_sound_prefix_stops(local: Seq<LocalObject>, hashes: Seq<String>, k: int)
    requires
        0 <= k < hashes.len(),
        sound_prefix(local, hashes.take(k)) == k,
        !sound(local, hashes[k]@),
    ensures
        sound_prefix(local, hashes) == k,
    decreases hashes.len(),
{
    if hashes.len() == k + 1 {
        assert(hashes.drop_last() =~= hashes.take(k));
    } else {
        assert(hashes.drop_last().take(k) =~= hashes.take(k));
        lemma_sound_prefix_stops(local, hashes.drop_last(), k);
    }
}

/// Where every identifier is sound, the sound prefix is the whole.
pub proof fn lemma_all_sound_prefix(local: Seq<LocalObject>, hashes: Seq<String>)
    requires
        all_sound(local, hashes),
    ensures
        sound_prefix(local, hashes) == hashes.len(),
    decreases hashes.len(),
{
    if hashes.len() > 0 {
        assert forall|i: int| 0 <= i < hashes.drop_last().len() implies sound(
            local,
            (#[trigger] hashes.drop_last()[i])@,
        ) by {
            assert(hashes.drop_last()[i] == hashes[i]);
        }
        lemma_all_sound_prefix(local, hashes.drop_last());
        assert(sound(local, hashes[hashes.len() - 1]@));
    }
}

/// The outcome of one unit that failed: its position among the units and
/// the error of its first unsound identifier.
pub struct UnitFailure {
    pub unit: usize,
    pub error: Error,
}

/// What a transfer strategy did: the units of work as it planned them, and
/// the units that failed, in order.
pub struct TransferReport {
    pub units: Vec<Vec<String>>,
    pub failures: Vec<UnitFailure>,
}

/// A unit fails when not all of its identifiers are sound.
pub open spec fn unit_fails(local: Seq<LocalObject>, hashes: Seq<String>) -> bool {
    sound_prefix(local, hashes) < hashes.len()
}

/// `failures` names exactly the failing units among the first `upto`, in
/// order, each with the error of its first unsound identifier.
pub open spec fn reports_failures(
    failures: Seq<UnitFailure>,
    local: Seq<LocalObject>,
    units: Seq<Vec<String>>,
    upto: int,
) -> bool {
    &&& forall|i: int|
        0 <= i < failures.len() ==> {
            let unit = (#[trigger] failures[i]).unit as int;
            &&& 0 <= unit < upto
            &&& unit_fails(local, units[unit]@)
            &&& is_failure_of(
                failures[i].error,
                local,
                units[unit]@[sound_prefix(local, units[unit]@) as int]@,
            )
        }
    &&& forall|i: int, j: int|
        0 <= i < j < failures.len() ==> (#[trigger] failures[i]).unit < (#[trigger] failures[j]).unit
    &&& forall|unit: int|
        0 <= unit < upto && unit_fails(local, (#[trigger] units[unit])@) ==> exists|i: int|
            0 <= i < failures.len() && (#[trigger] failures[i]).unit == unit
}

/// Reads one identifier from the local database and checks the digest of
/// what was read, without writing.
fn read_sound<'a>(repo: &'a LocalRepository, hash: &String) -> (checked: Result<
    &'a LocalObject,
    Error,
>)
    ensures
        match checked {
            Ok(object) => sound(repo.objects@, hash@) && local_object(repo.objects@, hash@)
                == Some(*object),
            Err(e) => !sound(repo.objects@, hash@) && is_failure_of(e, repo.objects@, hash@),
        },
{
    match repo.read(hash) {
        None => Err(Error::ProtocolFailure),
        Some(object) => {
            let actual = object_id(&object.kind, object.data.len(), object.data.as_slice());
            match check_digest(hash, actual) {
                Ok(_) => Ok(object),
                Err(e) => Err(e),
            }
        },
    }
}

/// The inserts that a transaction holds for the identifiers `hashes`:
/// each identifier with the object that the local database holds for it.
pub open spec fn holds_inserts(
    inserts: Seq<PendingRecord>,
    local: Seq<LocalObject>,
    hashes: Seq<String>,
) -> bool {
    &&& inserts.len() == hashes.len()
    &&& forall|j: int|
        0 <= j < hashes.len() ==> local_object(local, (#[trigger] hashes[j])@).is_some()
            && inserts[j] == (PendingRecord {
            hash: hashes[j]@,
            record: record_of(local_object(local, hashes[j]@).unwrap()),
        })
}

/// Committing a transaction that holds the inserts for `hashes` leaves
/// what inserting the identifiers one after another leaves.
pub proof fn lemma_commit_is_transfer(
    state: StoreView,
    inserts: Seq<PendingRecord>,
    local: Seq<LocalObject>,
    hashes: Seq<String>,
)
    requires
        holds_inserts(inserts, local, hashes),
    ensures
        after_inserts(state, inserts) == (StoreView {
            objects: with_objects(state.objects, local, hashes),
            ..state
        }),
    decreases hashes.len(),
{
    if hashes.len() > 0 {
        assert forall|j: int| 0 <= j < hashes.drop_last().len() implies local_object(
            local,
            (#[trigger] hashes.drop_last()[j])@,
        ).is_some() && inserts.drop_last()[j] == (PendingRecord {
            hash: hashes.drop_last()[j]@,
            record: record_of(local_object(local, hashes.drop_last()[j]@).unwrap()),
        }) by {
            assert(hashes.drop_last()[j] == hashes[j]);
        }
        lemma_commit_is_transfer(state, inserts.drop_last(), local, hashes.drop_last());
        assert(local_object(local, hashes[hashes.len() - 1]@).is_some());
    }
}

/// One object as it is written to the store: its identifier and its
/// canonical encoding.
pub struct EncodedObject {
    pub hash: String,
    pub content: Vec<u8>,
}

/// What one unit of work writes, and the failure that ended it, if any.
pub struct UnitPlan {
    pub writes: Vec<EncodedObject>,
    pub failure: Option<Error>,
}

/// The number of objects that a unit writes: those before its first
/// unsound identifier, or none of them where the unit is atomic and fails.
pub open spec fn written_count(local: Seq<LocalObject>, hashes: Seq<String>, atomic: bool) -> nat {
    if atomic && unit_fails(local, hashes) {
        0
    } else {
        sound_prefix(local, hashes)
    }
}

/// `plan` is the plan of the unit `hashes`: it writes the identifiers that
/// the unit reaches, in order, each with the encoding of its local object,
/// and it names the failure of the first unsound identifier.
pub open spec fn is_plan_of(
    plan: UnitPlan,
    local: Seq<LocalObject>,
    hashes: Seq<String>,
    atomic: bool,
) -> bool {
    &&& plan.writes@.len() == written_count(local, hashes, atomic)
    &&& plan.writes@.len() <= hashes.len()
    &&& forall|j: int|
        0 <= j < plan.writes@.len() ==> is_encoding_of(
            #[trigger] plan.writes@[j],
            local_object(local, hashes[j]@),
            hashes[j]@,
        )
    &&& match plan.failure {
        None => !unit_fails(local, hashes),
        Some(e) => unit_fails(local, hashes) && is_failure_of(
            e,
            local,
            hashes[sound_prefix(local, hashes) as int]@,
        ),
    }
}

/// `written` holds the identifier `id` and the encoding of the object
/// that the local database holds for it.
pub open spec fn is_encoding_of(written: EncodedObject, object: Option<LocalObject>, id: Seq<char>) -> bool {
    &&& written.hash@ == id
    &&& object matches Some(o) && written.content@ == encoded_bytes(o.kind, o.data@.len(), o.data@)
}

/// Plans one unit from what the local database holds: verifies each
/// identifier in order and encodes it for writing, up to the first
/// identifier that is unsound. An atomic unit that fails writes nothing.
pub fn plan_unit(repo: &LocalRepository, hashes: &Vec<String>, atomic: bool) -> (plan: UnitPlan)
    ensures
        is_plan_of(plan, repo.objects@, hashes@, atomic),
{
    let ghost local = repo.objects@;
    let mut writes: Vec<EncodedObject> = Vec::new();
    let mut i: usize = 0;
    while i < hashes.len()
        invariant
            i <= hashes@.len(),
            local == repo.objects@,
            sound_prefix(local, hashes@.take(i as int)) == i,
            writes@.len() == i,
            forall|j: int|
                0 <= j < i ==> is_encoding_of(
                    #[trigger] writes@[j],
                    local_object(local, hashes@[j]@),
                    hashes@[j]@,
                ),
        decreases hashes@.len() - i,
    {
        assert(hashes@.take(i + 1).drop_last() =~= hashes@.take(i as int));
        let failure = match repo.read(&hashes[i]) {
            None => Some(Error::ProtocolFailure),
            Some(object) => match verified_encoding(
                &object.kind,
                object.data.len(),
                object.data.as_slice(),
                &hashes[i],
            ) {
                Ok(content) => {
                    writes.push(EncodedObject { hash: hashes[i].clone(), content });
                    None
                },
                Err(e) => Some(e),
            },
        };
        if failure.is_some() {
            proof {
                lemma_sound_prefix_stops(local, hashes@, i as int);
            }
            if atomic {
                return UnitPlan { writes: Vec::new(), failure };
            }
            return UnitPlan { writes, failure };
        }
        i = i + 1;
    }
    assert(hashes@.take(i as int) =~= hashes@);
    UnitPlan { writes, failure: None }
}

/// Works off one unit: reads each identifier from the local database and
/// inserts it after verifying its digest, up to the first identifier that
/// is unsound. An atomic unit writes only if all of it is sound.
pub fn transfer(client: &mut GitSqlClient, repo: &LocalRepository, hashes: &Vec<String>, atomic: bool) -> (done:
    Result<(), Error>)
    requires
        old(client).wf(),
    ensures
        final(client).wf(),
        final(client)@ == (StoreView {
            objects: unit_objects(old(client)@.objects, repo.objects@, hashes@, atomic),
            ..old(client)@
        }),
        match done {
            Ok(_) => !unit_fails(repo.objects@, hashes@),
            Err(e) => unit_fails(repo.objects@, hashes@) && is_failure_of(
                e,
                repo.objects@,
                hashes@[sound_prefix(repo.objects@, hashes@) as int]@,
            ),
        },
{
    let ghost local = repo.objects@;
    let ghost start = client@;
    if atomic {
        let mut transact = client.transaction();
        let mut i: usize = 0;
        while i < hashes.len()
            invariant
                i <= hashes@.len(),
                local == repo.objects@,
                start == old(client)@,
                client@ == start,
                client.wf(),
                atomic,
                sound_prefix(local, hashes@.take(i as int)) == i,
                holds_inserts(transact@, local, hashes@.take(i as int)),
            decreases hashes@.len() - i,
        {
            match read_sound(repo, &hashes[i]) {
                Ok(object) => {
                    assert(hashes@.take(i + 1).drop_last() =~= hashes@.take(i as int));
                    let _ = GitSqlClient::insert_object_transaction(
                        &mut transact,
                        &hashes[i],
                        &object.kind,
                        object.data.len(),
                        object.data.as_slice(),
                    );
                },
                Err(e) => {
                    proof {
                        lemma_sound_prefix_stops(local, hashes@, i as int);
                    }
                    return Err(e);
                },
            }
            i = i + 1;
        }
        proof {
            assert(hashes@.take(i as int) =~= hashes@);
            lemma_commit_is_transfer(start, transact@, local, hashes@);
        }
        return client.commit(transact);
    }
    let mut i: usize = 0;
    while i < hashes.len()
        invariant
            i <= hashes@.len(),
            local == repo.objects@,
            start == old(client)@,
            client.wf(),
            !atomic,
            sound_prefix(local, hashes@.take(i as int)) == i,
            client@ == (StoreView {
                objects: with_objects(start.objects, local, hashes@.take(i as int)),
                ..start
            }),
        decreases hashes@.len() - i,
    {
        assert(hashes@.take(i + 1).drop_last() =~= hashes@.take(i as int));
        match repo.read(&hashes[i]) {
            None => {
                proof {
                    lemma_sound_prefix_stops(local, hashes@, i as int);
                }
                return Err(Error::ProtocolFailure);
            },
            Some(object) => {
                let done = client.insert_object_verify(
                    &object.kind,
                    object.data.len(),
                    object.data.as_slice(),
                    &hashes[i],
                );
                match done {
                    Ok(_) => {},
                    Err(e) => {
                        proof {
                            lemma_sound_prefix_stops(local, hashes@, i as int);
                        }
                        return Err(e);
                    },
                }
            },
        }
        i = i + 1;
    }
    assert(hashes@.take(i as int) =~= hashes@);
    Ok(())
}

/// Works off the units one after another. A unit that fails does not stop
/// the others; the failures are reported in order.
pub fn transfer_units(
    client: &mut GitSqlClient,
    repo: &LocalRepository,
    units: &Vec<Vec<String>>,
    atomic: bool,
) -> (failures: Vec<UnitFailure>)
    requires
        old(client).wf(),
    ensures
        final(client).wf(),
        final(client)@ == (StoreView {
            objects: units_objects(old(client)@.objects, repo.objects@, units@, atomic),
            ..old(client)@
        }),
        reports_failures(failures@, repo.objects@, units@, units@.len() as int),
{
    let ghost local = repo.objects@;
    let ghost start = client@;
    let mut failures: Vec<UnitFailure> = Vec::new();
    let mut u: usize = 0;
    while u < units.len()
        invariant
            u <= units@.len(),
            local == repo.objects@,
            start == old(client)@,
            client.wf(),
            client@ == (StoreView {
                objects: units_objects(start.objects, local, units@.take(u as int), atomic),
                ..start
            }),
            reports_failures(failures@, local, units@, u as int),
        decreases units@.len() - u,
    {
        assert(units@.take(u + 1).drop_last() =~= units@.take(u as int));
        let ghost reported = failures@;
        match transfer(client, repo, &units[u], atomic) {
            Ok(_) => {},
            Err(error) => {
                failures.push(UnitFailure { unit: u, error });
                proof {
                    assert forall|unit: int|
                        0 <= unit < u + 1 && unit_fails(
                            local,
                            (#[trigger] units@[unit])@,
                        ) implies exists|i: int|
                        0 <= i < failures@.len() && (#[trigger] failures@[i]).unit == unit by {
                        if unit < u {
                            let i = choose|i: int|
                                0 <= i < reported.len() && (#[trigger] reported[i]).unit == unit;
                            assert(failures@[i].unit == unit);
                        } else {
                            assert(failures@[reported.len() as int].unit == unit);
                        }
                    }
                }
            },
        }
        u = u + 1;
    }
    assert(units@.take(u as int) =~= units@);
    failures
}

} // verus!
