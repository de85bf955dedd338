use vstd::prelude::*;
use crate::client::ObjectRecord;
use crate::client::StoreView;
use crate::client::after_insert;
use crate::client::after_set_ref;
use crate::client::changes_ref;
use crate::client::chase;
use crate::client::file_at;
use crate::client::lists_refs;
use crate::client::missing_of;
use crate::client::resolved;
use crate::error::Error;
use crate::local::LocalObject;
use crate::local::local_object;
use crate::local::sound;
use crate::object::ObjectKind;
use crate::object::object_digest;
use crate::partition::joined;
use crate::server::index_path;
use crate::server::view_content;
use crate::transfer::TransferReport;
use crate::transfer::all_sound;
use crate::transfer::record_of;
use crate::transfer::lemma_all_sound_prefix;
use crate::transfer::sound_prefix;
use crate::transfer::unit_objects;
use crate::transfer::units_objects;
use crate::transfer::with_objects;
use crate::updater::Strategy;
use crate::updater::TransferPlan;
use crate::updater::is_transfer_plan;
use crate::updater::missing_in;
use crate::updater::strategy_outcome;
use crate::updater::transferred;

verus! {

/// `hashes` holds the identifier `id`.
pub open spec fn lists(hashes: Seq<String>, id: Seq<char>) -> bool {
    exists|i: int| 0 <= i < hashes.len() && (#[trigger] hashes[i])@ == id
}

/// Inserting under one identifier twice leaves what the first insert left:
/// one object under that identifier, the first one, beside what was there.
pub proof fn lemma_insert_idempotent(
    state: StoreView,
    hash: Seq<char>,
    first: ObjectRecord,
    second: ObjectRecord,
)
    ensures
        after_insert(after_insert(state, hash, first), hash, second) == after_insert(
            state,
            hash,
            first,
        ),
        after_insert(state, hash, first).objects.contains_key(hash),
        after_insert(state, hash, first).objects.dom() == state.objects.dom().insert(hash),
        !state.objects.contains_key(hash) ==> after_insert(state, hash, first).objects[hash]
            == first,
        state.objects.dom().finite() && !state.objects.contains_key(hash) ==> after_insert(
            after_insert(state, hash, first),
            hash,
            second,
        ).objects.dom().len() == state.objects.dom().len() + 1,
{
    assert(after_insert(state, hash, first).objects.dom() =~= state.objects.dom().insert(hash));
}

/// An object that is inserted twice by verified inserts is stored once,
/// under the digest of its encoding.
pub proof fn lemma_verified_insert_idempotent(state: StoreView, kind: ObjectKind, data: Seq<u8>)
    ensures
        ({
            let id = object_digest(kind, data.len(), data);
            let record = ObjectRecord { kind, size: data.len(), data };
            let once = after_insert(state, id, record);
            &&& after_insert(once, id, record) == once
            &&& once.objects.contains_key(id)
            &&& once.objects.dom() == state.objects.dom().insert(id)
            &&& !state.objects.contains_key(id) ==> once.objects[id] == record
        }),
{
    let id = object_digest(kind, data.len(), data);
    let record = ObjectRecord { kind, size: data.len(), data };
    lemma_insert_idempotent(state, id, record, record);
}

proof fn lemma_lists_push(hashes: Seq<String>, last: String, id: Seq<char>)
    ensures
        lists(hashes.push(last), id) <==> lists(hashes, id) || last@ == id,
{
    let longer = hashes.push(last);
    if lists(hashes, id) {
        let i = choose|i: int| 0 <= i < hashes.len() && (#[trigger] hashes[i])@ == id;
        assert(longer[i]@ == id);
    }
    if last@ == id {
        assert(longer[hashes.len() as int]@ == id);
    }
    if lists(longer, id) {
        let i = choose|i: int| 0 <= i < longer.len() && (#[trigger] longer[i])@ == id;
        if i < hashes.len() {
            assert(hashes[i]@ == id);
        }
    }
}

/// The missing set is the difference: it holds an identifier exactly if
/// the staging set holds it and the durable objects do not.
pub proof fn lemma_missing_is_difference(
    staged: Seq<String>,
    objects: Map<Seq<char>, ObjectRecord>,
    id: Seq<char>,
)
    ensures
        lists(missing_of(staged, objects), id) <==> lists(staged, id) && !objects.contains_key(id),
    decreases staged.len(),
{
    if staged.len() > 0 {
        let rest = staged.drop_last();
        let last = staged.last();
        lemma_missing_is_difference(rest, objects, id);
        assert(staged =~= rest.push(last));
        lemma_lists_push(rest, last, id);
        lemma_lists_push(missing_of(rest, objects), last, id);
    }
}

/// Staging in two parts and then taking the difference gives the
/// difference of the first part followed by that of the second.
pub proof fn lemma_missing_of_batches(
    first: Seq<String>,
    second: Seq<String>,
    objects: Map<Seq<char>, ObjectRecord>,
)
    ensures
        missing_of(first + second, objects) == missing_of(first, objects) + missing_of(
            second,
            objects,
        ),
    decreases second.len(),
{
    if second.len() == 0 {
        assert(first + second =~= first);
        assert(missing_of(first, objects) + missing_of(second, objects) =~= missing_of(
            first,
            objects,
        ));
    } else {
        lemma_missing_of_batches(first, second.drop_last(), objects);
        assert((first + second).drop_last() =~= first + second.drop_last());
        assert((first + second).last() == second.last());
        assert(missing_of(first, objects) + missing_of(second.drop_last(), objects).push(
            second.last(),
        ) =~= (missing_of(first, objects) + missing_of(second.drop_last(), objects)).push(
            second.last(),
        ));
    }
}

/// Inserting two runs of identifiers one after the other is inserting
/// their concatenation.
pub proof fn lemma_with_objects_concat(
    objects: Map<Seq<char>, ObjectRecord>,
    local: Seq<LocalObject>,
    first: Seq<String>,
    second: Seq<String>,
)
    ensures
        with_objects(with_objects(objects, local, first), local, second) == with_objects(
            objects,
            local,
            first + second,
        ),
    decreases second.len(),
{
    if second.len() == 0 {
        assert(first + second =~= first);
    } else {
        lemma_with_objects_concat(objects, local, first, second.drop_last());
        assert((first + second).drop_last() =~= first + second.drop_last());
        assert((first + second).last() == second.last());
    }
}

/// Where every missing identifier is sound, working the units off leaves
/// what inserting the whole missing set in order leaves, however the set
/// was cut into units and whether or not the units are atomic.
pub proof fn lemma_units_agree(
    objects: Map<Seq<char>, ObjectRecord>,
    local: Seq<LocalObject>,
    units: Seq<Vec<String>>,
    atomic: bool,
)
    requires
        all_sound(local, joined(units)),
    ensures
        units_objects(objects, local, units, atomic) == with_objects(objects, local, joined(units)),
    decreases units.len(),
{
    if units.len() > 0 {
        let front = joined(units.drop_last());
        let last = units.last()@;
        assert(joined(units) == front + last);
        assert forall|i: int| 0 <= i < front.len() implies sound(local, (#[trigger] front[i])@) by {
            assert(joined(units)[i] == front[i]);
        }
        assert forall|i: int| 0 <= i < last.len() implies sound(local, (#[trigger] last[i])@) by {
            assert(joined(units)[front.len() + i] == last[i]);
        }
        lemma_units_agree(objects, local, units.drop_last(), atomic);
        lemma_all_sound_prefix(local, last);
        assert(last.take(last.len() as int) =~= last);
        lemma_with_objects_concat(objects, local, front, last);
    }
}

/// Strategy equivalence: where every missing identifier is sound, two
/// strategies that cut the same missing set into units, each in its own
/// way, leave the same durable objects, and so does the strategy that
/// works the missing set off as one run.
pub proof fn lemma_strategies_agree(
    objects: Map<Seq<char>, ObjectRecord>,
    local: Seq<LocalObject>,
    first: Seq<Vec<String>>,
    first_atomic: bool,
    second: Seq<Vec<String>>,
    second_atomic: bool,
)
    requires
        joined(first) == joined(second),
        all_sound(local, joined(first)),
    ensures
        units_objects(objects, local, first, first_atomic) == units_objects(
            objects,
            local,
            second,
            second_atomic,
        ),
        units_objects(objects, local, first, first_atomic) == unit_objects(
            objects,
            local,
            joined(first),
            false,
        ),
{
    lemma_units_agree(objects, local, first, first_atomic);
    lemma_units_agree(objects, local, second, second_atomic);
    lemma_all_sound_prefix(local, joined(first));
    assert(joined(first).take(joined(first).len() as int) =~= joined(first));
}

/// Where every identifier of the joined units is sound, every unit is.
pub proof fn lemma_all_sound_units(local: Seq<LocalObject>, units: Seq<Vec<String>>, u: int)
    requires
        all_sound(local, joined(units)),
        0 <= u < units.len(),
    ensures
        all_sound(local, units[u]@),
    decreases units.len(),
{
    let front = joined(units.drop_last());
    let last = units.last()@;
    assert(joined(units) == front + last);
    if u == units.len() - 1 {
        assert forall|i: int| 0 <= i < last.len() implies sound(local, (#[trigger] last[i])@) by {
            assert(joined(units)[front.len() + i] == last[i]);
        }
    } else {
        assert forall|i: int| 0 <= i < front.len() implies sound(local, (#[trigger] front[i])@) by {
            assert(joined(units)[i] == front[i]);
        }
        lemma_all_sound_units(local, units.drop_last(), u);
    }
}

/// Strategy equivalence, of the strategies as they run: from one state
/// whose missing set is sound throughout, any two of the strategies that
/// work by units end in the same state, the state in which the strategy
/// that works one object at a time ends, and none reports a failure.
pub proof fn lemma_strategy_outcomes_agree(
    before: StoreView,
    local: Seq<LocalObject>,
    first_after: StoreView,
    first_done: Result<TransferReport, Error>,
    first_size: nat,
    first_atomic: bool,
    second_after: StoreView,
    second_done: Result<TransferReport, Error>,
    second_size: nat,
    second_atomic: bool,
)
    requires
        !before.diffed,
        all_sound(local, missing_in(before)),
        strategy_outcome(before, first_after, first_done, local, first_size, first_atomic),
        strategy_outcome(before, second_after, second_done, local, second_size, second_atomic),
    ensures
        first_after == second_after,
        first_after == transferred(
            before,
            unit_objects(before.objects, local, missing_in(before), false),
        ),
        first_after.objects == with_objects(before.objects, local, missing_in(before)),
        first_done matches Ok(report) && report.failures@.len() == 0,
{
    let first = first_done->Ok_0;
    let second = second_done->Ok_0;
    lemma_strategies_agree(
        before.objects,
        local,
        first.units@,
        first_atomic,
        second.units@,
        second_atomic,
    );
    lemma_units_agree(before.objects, local, first.units@, first_atomic);
    if first.failures@.len() > 0 {
        let unit = first.failures@[0].unit as int;
        lemma_all_sound_units(local, first.units@, unit);
        lemma_all_sound_prefix(local, first.units@[unit]@);
    }
}

/// The plan of the sequential strategy leaves what one run over the whole
/// missing set leaves, a run that stops at its first failure.
pub proof fn lemma_sequential_plan_is_one_run(
    objects: Map<Seq<char>, ObjectRecord>,
    local: Seq<LocalObject>,
    missing: Seq<String>,
    plan: TransferPlan,
)
    requires
        is_transfer_plan(plan, missing, Strategy::Sequential),
    ensures
        !plan.atomic,
        units_objects(objects, local, plan.units@, false) == unit_objects(
            objects,
            local,
            missing,
            false,
        ),
{
    let units = plan.units@;
    if missing.len() == 0 {
        assert(units.len() == 0);
        assert(missing.take(0) =~= missing);
    } else {
        let count = missing.len();
        assert(count % count == 0 && count / count == 1) by (nonlinear_arith)
            requires
                count > 0,
        ;
        assert(units.len() == 1);
        assert(units.drop_last().len() == 0);
        assert(joined(units.drop_last()) =~= Seq::<String>::empty());
        assert(joined(units.drop_last()) + units.last()@ =~= units.last()@);
        assert(units.last()@ == missing);
        assert(units_objects(objects, local, units.drop_last(), false) == objects);
    }
}

/// After the transfer of the identifiers `hashes`, all of which the local
/// database can read, an identifier is stored exactly if it was stored
/// before or is among them. What was stored before keeps its object, and
/// what is new holds the local object.
pub proof fn lemma_with_objects_at(
    objects: Map<Seq<char>, ObjectRecord>,
    local: Seq<LocalObject>,
    hashes: Seq<String>,
    id: Seq<char>,
)
    requires
        all_sound(local, hashes),
    ensures
        with_objects(objects, local, hashes).contains_key(id) <==> objects.contains_key(id)
            || lists(hashes, id),
        objects.contains_key(id) ==> with_objects(objects, local, hashes)[id] == objects[id],
        !objects.contains_key(id) && lists(hashes, id) ==> with_objects(objects, local, hashes)[id]
            == record_of(local_object(local, id).unwrap()),
    decreases hashes.len(),
{
    if hashes.len() > 0 {
        let front = hashes.drop_last();
        assert forall|i: int| 0 <= i < front.len() implies sound(local, (#[trigger] front[i])@) by {
            assert(front[i] == hashes[i]);
        }
        lemma_with_objects_at(objects, local, front, id);
        assert(hashes =~= front.push(hashes.last()));
        lemma_lists_push(front, hashes.last(), id);
        assert(sound(local, hashes[hashes.len() - 1]@));
    }
}

/// After the transfer of a missing set that is sound throughout, every
/// staged identifier is stored, what was stored before is unchanged, and
/// every identifier that was missing holds its local object.
pub proof fn lemma_transfer_completes(
    objects: Map<Seq<char>, ObjectRecord>,
    local: Seq<LocalObject>,
    staged: Seq<String>,
    id: Seq<char>,
)
    requires
        all_sound(local, missing_of(staged, objects)),
    ensures
        lists(staged, id) ==> with_objects(
            objects,
            local,
            missing_of(staged, objects),
        ).contains_key(id),
        objects.contains_key(id) ==> with_objects(objects, local, missing_of(staged, objects))[id]
            == objects[id],
        lists(staged, id) && !objects.contains_key(id) ==> with_objects(
            objects,
            local,
            missing_of(staged, objects),
        )[id] == record_of(local_object(local, id).unwrap()),
{
    lemma_missing_is_difference(staged, objects, id);
    lemma_with_objects_at(objects, local, missing_of(staged, objects), id);
}

/// A listing of the references holds every reference that resolves, with
/// what it resolves to.
pub proof fn lemma_listing_holds_resolved(
    refs: Seq<(String, String)>,
    store: StoreView,
    name: Seq<char>,
    target: Seq<char>,
)
    requires
        lists_refs(refs, store),
        resolved(store.refs, name) == Some(target),
    ensures
        exists|i: int| 0 <= i < refs.len() && (#[trigger] refs[i]).0@ == name && refs[i].1@ == target,
{
    assert(store.refs.contains_key(name));
    let i = choose|i: int| 0 <= i < refs.len() && (#[trigger] refs[i]).0@ == name;
    assert(refs[i].1@ == target);
}

/// Every stored object is stored under the digest of its encoding.
pub open spec fn digests_hold(objects: Map<Seq<char>, ObjectRecord>) -> bool {
    forall|id: Seq<char>| #[trigger]
        objects.contains_key(id) ==> object_digest(
            objects[id].kind,
            objects[id].size,
            objects[id].data,
        ) == id
}

/// A verified insert keeps every object under the digest of its encoding.
pub proof fn lemma_verified_insert_keeps_digests(
    state: StoreView,
    kind: ObjectKind,
    size: nat,
    data: Seq<u8>,
)
    requires
        digests_hold(state.objects),
    ensures
        digests_hold(
            after_insert(
                state,
                object_digest(kind, size, data),
                ObjectRecord { kind, size, data },
            ).objects,
        ),
{
}

/// The identifiers up to the sound prefix are all sound.
pub proof fn lemma_sound_prefix_is_sound(local: Seq<LocalObject>, hashes: Seq<String>)
    ensures
        sound_prefix(local, hashes) <= hashes.len(),
        all_sound(local, hashes.take(sound_prefix(local, hashes) as int)),
    decreases hashes.len(),
{
    if hashes.len() > 0 {
        let front = hashes.drop_last();
        lemma_sound_prefix_is_sound(local, front);
        let reached = sound_prefix(local, front);
        if reached == hashes.len() - 1 && sound(local, hashes.last()@) {
            assert(front.take(reached as int) =~= front);
            assert forall|i: int| 0 <= i < hashes.len() implies sound(
                local,
                (#[trigger] hashes.take(hashes.len() as int)[i])@,
            ) by {
                if i < hashes.len() - 1 {
                    assert(front[i] == hashes[i]);
                }
            }
        } else {
            assert(hashes.take(reached as int) =~= front.take(reached as int));
        }
    }
}

/// Inserting sound identifiers keeps every object under the digest of its
/// encoding.
pub proof fn lemma_transfer_keeps_digests(
    objects: Map<Seq<char>, ObjectRecord>,
    local: Seq<LocalObject>,
    hashes: Seq<String>,
)
    requires
        digests_hold(objects),
        all_sound(local, hashes),
    ensures
        digests_hold(with_objects(objects, local, hashes)),
    decreases hashes.len(),
{
    if hashes.len() > 0 {
        assert forall|i: int| 0 <= i < hashes.drop_last().len() implies sound(
            local,
            (#[trigger] hashes.drop_last()[i])@,
        ) by {
            assert(hashes.drop_last()[i] == hashes[i]);
        }
        lemma_transfer_keeps_digests(objects, local, hashes.drop_last());
        assert(sound(local, hashes[hashes.len() - 1]@));
    }
}

/// Whatever the units hold and whichever of them fail, working them off
/// keeps every object under the digest of its encoding: only what was
/// verified is written.
pub proof fn lemma_units_keep_digests(
    objects: Map<Seq<char>, ObjectRecord>,
    local: Seq<LocalObject>,
    units: Seq<Vec<String>>,
    atomic: bool,
)
    requires
        digests_hold(objects),
    ensures
        digests_hold(units_objects(objects, local, units, atomic)),
    decreases units.len(),
{
    if units.len() > 0 {
        lemma_units_keep_digests(objects, local, units.drop_last(), atomic);
        let before = units_objects(objects, local, units.drop_last(), atomic);
        let last = units.last()@;
        lemma_sound_prefix_is_sound(local, last);
        lemma_transfer_keeps_digests(before, local, last.take(sound_prefix(local, last) as int));
    }
}

/// A reference that was set to an identifier resolves to it, and setting
/// it to that value once more is no change.
pub proof fn lemma_set_ref_resolves(state: StoreView, name: Seq<char>, target: Seq<char>)
    requires
        state.refs.dom().finite(),
        name != target,
        !state.refs.contains_key(target),
    ensures
        resolved(after_set_ref(state, name, target).refs, name) == Some(target),
        !changes_ref(after_set_ref(state, name, target), name, target),
{
    let refs = after_set_ref(state, name, target).refs;
    assert(refs.dom() =~= state.refs.dom().insert(name));
    assert(refs.dom().contains(name));
    assert(refs.dom().len() > 0);
    let fuel = refs.dom().len();
    assert(chase(refs, target, (fuel - 1) as nat) == Some(target));
    assert(chase(refs, name, fuel) == chase(refs, refs[name], (fuel - 1) as nat));
}

/// A directory without an index file is not found: the view looks the
/// index file up once and gives up where that is a directory again or
/// does not resolve.
pub proof fn lemma_view_single_retry(store: StoreView, path: Seq<char>, at: Seq<char>)
    requires
        file_at(store, path, at) matches Some(object) && object.kind == ObjectKind::Tree,
        match file_at(store, index_path(path), at) {
            Some(object) => object.kind == ObjectKind::Tree,
            None => true,
        },
    ensures
        view_content(store, path, at, false).is_err(),
{
    assert(view_content(store, index_path(path), at, true).is_err());
}

} // verus!
