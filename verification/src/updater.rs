use vstd::prelude::*;
use crate::client::GitSqlClient;
use crate::client::ObjectListHandle;
use crate::client::StoreView;
use crate::client::changes_ref;
use crate::client::missing_of;
use crate::error::Error;
use crate::export::all_readable;
use crate::export::export_rows;
use crate::export::export_text;
use crate::local::LocalObject;
use crate::local::LocalRepository;
use crate::local::local_ids;
use crate::partition::ceil_div;
use crate::partition::chunk_hashes;
use crate::partition::groups_of;
use crate::partition::joined;
use crate::partition::lemma_joined_push;
use crate::partition::range_len;
use crate::partition::split_ranges;
use crate::refs::RefChange;
use crate::refs::after_writes;
use crate::refs::plan_ref_writes;
use crate::refs::records_writes;
use crate::refs::ref_plan;
use crate::refs::writes_view;
use crate::transfer::TransferReport;
use crate::transfer::is_failure_of;
use crate::transfer::reports_failures;
use crate::transfer::sound_prefix;
use crate::transfer::transfer;
use crate::transfer::transfer_units;
use crate::transfer::unit_fails;
use crate::transfer::unit_objects;
use crate::transfer::units_objects;

verus! {

/// The number of identifiers staged in one round-trip.
pub const STAGING_BATCH: usize = 2000;

/// The number of objects in one transactional chunk.
pub const CHUNK_SIZE: usize = 500;

/// The number of workers behind the pooled strategies.
pub const POOL_WORKERS: usize = 10;

/// How a missing set is transferred.
pub enum Strategy {
    /// One object at a time; the first failure ends the transfer.
    Sequential,
    /// In chunks of `CHUNK_SIZE`, each of which lands as a whole or not at
    /// all, on a pool of workers.
    Chunked,
    /// In contiguous ranges split up front, one worker for each range.
    FixedWorkers(usize),
    /// Every object as a unit of its own, on a pool of workers.
    Concurrent,
}

/// The units of a transfer, whether each lands as a whole or not at all,
/// and the number of workers that share the units.
pub struct TransferPlan {
    pub units: Vec<Vec<String>>,
    pub atomic: bool,
    pub workers: usize,
}

/// The number of identifiers in each unit of a strategy, for a missing set
/// of `count` identifiers. The sequential strategy works the whole set off
/// as one unit, which stops at its first failure.
pub open spec fn unit_size(strategy: Strategy, count: nat) -> nat {
    match strategy {
        Strategy::Sequential => count,
        Strategy::Chunked => CHUNK_SIZE as nat,
        Strategy::FixedWorkers(workers) => range_len(count, workers as nat),
        Strategy::Concurrent => 1,
    }
}

/// Whether the units of a strategy land as a whole or not at all.
pub open spec fn lands_whole(strategy: Strategy) -> bool {
    strategy is Chunked
}

/// The number of workers of a strategy. A worker count of zero is served
/// as one worker.
pub open spec fn worker_count(strategy: Strategy) -> nat {
    match strategy {
        Strategy::Sequential => 1,
        Strategy::Chunked => POOL_WORKERS as nat,
        Strategy::FixedWorkers(workers) => if workers == 0 {
            1
        } else {
            workers as nat
        },
        Strategy::Concurrent => POOL_WORKERS as nat,
    }
}

/// `plan` is the plan of a strategy for the missing set: its units are the
/// missing set cut into consecutive groups of the strategy's unit size.
pub open spec fn is_transfer_plan(plan: TransferPlan, missing: Seq<String>, strategy: Strategy) -> bool {
    &&& joined(plan.units@) == missing
    &&& groups_of(plan.units@, unit_size(strategy, missing.len()))
    &&& plan.units@.len() == ceil_div(missing.len(), unit_size(strategy, missing.len()))
    &&& (strategy is FixedWorkers ==> plan.units@.len() <= worker_count(strategy))
    &&& plan.atomic == lands_whole(strategy)
    &&& plan.workers == worker_count(strategy)
}

/// Plans the transfer of a missing set by a strategy.
pub fn plan_transfer(missing: &Vec<String>, strategy: &Strategy) -> (plan: TransferPlan)
    ensures
        is_transfer_plan(plan, missing@, *strategy),
{
    match strategy {
        Strategy::Sequential => TransferPlan {
            units: split_ranges(missing, 1),
            atomic: false,
            workers: 1,
        },
        Strategy::Chunked => TransferPlan {
            units: chunk_hashes(missing, CHUNK_SIZE),
            atomic: true,
            workers: POOL_WORKERS,
        },
        Strategy::FixedWorkers(workers) => TransferPlan {
            units: split_ranges(missing, *workers),
            atomic: false,
            workers: if *workers == 0 {
                1
            } else {
                *workers
            },
        },
        Strategy::Concurrent => TransferPlan {
            units: chunk_hashes(missing, 1),
            atomic: false,
            workers: POOL_WORKERS,
        },
    }
}

/// One synchronization cycle on a store session: it owns the session and
/// the staging set that it opened.
pub struct RepositoryUpdater {
    client: GitSqlClient,
    handle: ObjectListHandle,
}

impl View for RepositoryUpdater {
    type V = StoreView;

    closed spec fn view(&self) -> StoreView {
        self.client@
    }
}

/// The missing set of a cycle: what is staged and not stored.
pub open spec fn missing_in(state: StoreView) -> Seq<String> {
    missing_of(state.staged.unwrap(), state.objects)
}

/// The state after a transfer that left `objects` behind.
pub open spec fn transferred(state: StoreView, objects: Map<Seq<char>, crate::client::ObjectRecord>) -> StoreView {
    StoreView { objects, diffed: true, ..state }
}

/// What a strategy that works by units leaves behind. On a staging set
/// that was consumed already it fails and changes nothing. Else it plans
/// the missing set as consecutive units of `size` identifiers, works each
/// unit off, and reports the units and those that failed.
pub open spec fn strategy_outcome(
    before: StoreView,
    after: StoreView,
    done: Result<TransferReport, Error>,
    local: Seq<LocalObject>,
    size: nat,
    atomic: bool,
) -> bool {
    match done {
        Ok(report) => {
            &&& !before.diffed
            &&& joined(report.units@) == missing_in(before)
            &&& groups_of(report.units@, size)
            &&& after == transferred(
                before,
                units_objects(before.objects, local, report.units@, atomic),
            )
            &&& reports_failures(report.failures@, local, report.units@, report.units@.len() as int)
        },
        Err(e) => before.diffed && e == Error::ProtocolFailure && after == before,
    }
}

impl RepositoryUpdater {
    /// The session is consistent and its staging set is open.
    pub closed spec fn wf(&self) -> bool {
        self.client.wf() && self.client@.staged.is_some()
    }

    /// Begins a cycle: opens a fresh staging set on the session.
    pub fn new(client: GitSqlClient) -> (updater: Result<RepositoryUpdater, Error>)
        requires
            client.wf(),
        ensures
            match updater {
                Ok(u) => u.wf() && u@ == (StoreView {
                    staged: Some(Seq::<String>::empty()),
                    diffed: false,
                    ..client@
                }),
                Err(_) => false,
            },
    {
        let mut client = client;
        let handle = client.start_object_list()?;
        Ok(RepositoryUpdater { client, handle })
    }

    /// The session, for reading.
    pub fn client(&self) -> (client: &GitSqlClient)
        requires
            self.wf(),
        ensures
            client.wf(),
            client@ == self@,
    {
        &self.client
    }

    /// Ends the cycle and hands the session back, its staging set closed.
    pub fn finish(self) -> (client: GitSqlClient)
        requires
            self.wf(),
        ensures
            client.wf(),
            client@ == (StoreView { staged: None, diffed: false, ..self@ }),
    {
        let mut client = self.client;
        let _ = client.end_object_list();
        client
    }

    /// Stages identifiers in batches of `batch_size`. What is staged does
    /// not depend on the batch size.
    pub fn stage(&mut self, hashes: &Vec<String>, batch_size: usize) -> (done: Result<(), Error>)
        requires
            old(self).wf(),
            batch_size > 0,
        ensures
            final(self).wf(),
            done is Ok,
            final(self)@ == (StoreView {
                staged: Some(old(self)@.staged.unwrap() + hashes@),
                ..old(self)@
            }),
    {
        let batches = chunk_hashes(hashes, batch_size);
        let ghost start = self@;
        let mut b: usize = 0;
        assert(start.staged.unwrap() + joined(batches@.take(0)) =~= start.staged.unwrap());
        while b < batches.len()
            invariant
                b <= batches@.len(),
                self.wf(),
                start == old(self)@,
                self@ == (StoreView {
                    staged: Some(start.staged.unwrap() + joined(batches@.take(b as int))),
                    ..start
                }),
            decreases batches@.len() - b,
        {
            proof {
                assert(batches@.take(b + 1) =~= batches@.take(b as int).push(batches@[b as int]));
                lemma_joined_push(batches@.take(b as int), batches@[b as int]);
                assert((start.staged.unwrap() + joined(batches@.take(b as int))) + batches@[b as int]@
                    =~= start.staged.unwrap() + joined(batches@.take(b + 1)));
            }
            self.client.add_hashes_to_object_list(&self.handle, &batches[b])?;
            b = b + 1;
        }
        assert(batches@.take(b as int) =~= batches@);
        Ok(())
    }

    /// Enumerating: stages the identifier of every local object, in the
    /// order of enumeration, and returns how many there were.
    pub fn process_objects(&mut self, repo: &LocalRepository) -> (loaded: Result<usize, Error>)
        requires
            old(self).wf(),
        ensures
            final(self).wf(),
            loaded == Ok::<usize, Error>(repo.objects@.len() as usize),
            final(self)@ == (StoreView {
                staged: Some(old(self)@.staged.unwrap() + local_ids(repo.objects@)),
                ..old(self)@
            }),
    {
        let mut ids: Vec<String> = Vec::new();
        let mut i: usize = 0;
        while i < repo.objects.len()
            invariant
                i <= repo.objects@.len(),
                ids@ == local_ids(repo.objects@.take(i as int)),
            decreases repo.objects@.len() - i,
        {
            ids.push(repo.objects[i].id.clone());
            assert(ids@ =~= local_ids(repo.objects@.take(i + 1)));
            i = i + 1;
        }
        assert(repo.objects@.take(i as int) =~= repo.objects@);
        self.stage(&ids, STAGING_BATCH)?;
        Ok(repo.objects.len())
    }

    /// Diffing and transferring, one object at a time: each missing object
    /// is read locally and inserted after its digest is verified. The
    /// first object that fails ends the cycle.
    pub fn update_objects(&mut self, repo: &LocalRepository) -> (done: Result<(), Error>)
        requires
            old(self).wf(),
        ensures
            final(self).wf(),
            old(self)@.diffed ==> done == Err::<(), Error>(Error::ProtocolFailure) && final(self)@
                == old(self)@,
            !old(self)@.diffed ==> final(self)@ == transferred(
                old(self)@,
                unit_objects(old(self)@.objects, repo.objects@, missing_in(old(self)@), false),
            ) && (match done {
                Ok(_) => !unit_fails(repo.objects@, missing_in(old(self)@)),
                Err(e) => unit_fails(repo.objects@, missing_in(old(self)@)) && is_failure_of(
                    e,
                    repo.objects@,
                    missing_in(old(self)@)[sound_prefix(repo.objects@, missing_in(old(self)@)) as int]@,
                ),
            }),
    {
        let missing = self.client.diff_object_list_direct()?;
        transfer(&mut self.client, repo, &missing, false)
    }

    /// Diffing and transferring by a strategy: the missing set is cut into
    /// the units of the strategy's plan, and the units are worked off. A
    /// unit that fails does not stop the others.
    pub fn update_objects_by(&mut self, repo: &LocalRepository, strategy: &Strategy) -> (done: Result<
        TransferReport,
        Error,
    >)
        requires
            old(self).wf(),
        ensures
            final(self).wf(),
            strategy_outcome(
                old(self)@,
                final(self)@,
                done,
                repo.objects@,
                unit_size(*strategy, missing_in(old(self)@).len()),
                lands_whole(*strategy),
            ),
            match done {
                Ok(report) => report.units@.len() == ceil_div(
                    missing_in(old(self)@).len(),
                    unit_size(*strategy, missing_in(old(self)@).len()),
                ) && (*strategy is FixedWorkers ==> report.units@.len() <= worker_count(
                    *strategy,
                )),
                Err(_) => true,
            },
    {
        let missing = self.client.diff_object_list_direct()?;
        let plan = plan_transfer(&missing, strategy);
        let failures = transfer_units(&mut self.client, repo, &plan.units, plan.atomic);
        Ok(TransferReport { units: plan.units, failures })
    }

    /// Diffing and transferring in chunks: the missing set is cut into
    /// chunks of `CHUNK_SIZE`, and each chunk lands as a whole or not at
    /// all. A chunk that fails does not stop the others.
    pub fn update_objects_chunked(&mut self, repo: &LocalRepository) -> (done: Result<
        TransferReport,
        Error,
    >)
        requires
            old(self).wf(),
        ensures
            final(self).wf(),
            strategy_outcome(old(self)@, final(self)@, done, repo.objects@, CHUNK_SIZE as nat, true),
    {
        self.update_objects_by(repo, &Strategy::Chunked)
    }

    /// Diffing and transferring by ranges: the missing set is split up
    /// front into contiguous ranges of `ceil(count / workers)` objects, and
    /// each range is worked off up to its first failure, which does not
    /// stop the other ranges.
    pub fn update_objects_fixed_workers(&mut self, repo: &LocalRepository, workers: usize) -> (done:
        Result<TransferReport, Error>)
        requires
            old(self).wf(),
        ensures
            final(self).wf(),
            strategy_outcome(
                old(self)@,
                final(self)@,
                done,
                repo.objects@,
                range_len(missing_in(old(self)@).len(), workers as nat),
                false,
            ),
            match done {
                Ok(report) => workers > 0 ==> report.units@.len() <= workers,
                Err(_) => true,
            },
    {
        self.update_objects_by(repo, &Strategy::FixedWorkers(workers))
    }

    /// Diffing and transferring object by object: every missing object is
    /// a unit of work of its own, and no failure stops another object.
    pub fn update_objects_concurrent(&mut self, repo: &LocalRepository) -> (done: Result<
        TransferReport,
        Error,
    >)
        requires
            old(self).wf(),
        ensures
            final(self).wf(),
            strategy_outcome(old(self)@, final(self)@, done, repo.objects@, 1, false),
    {
        self.update_objects_by(repo, &Strategy::Concurrent)
    }

    /// Diffing and exporting: writes the missing set as bulk-export rows,
    /// one for each object, instead of inserting it. An object that the
    /// local database cannot read fails the export.
    pub fn generate_copy_csv(&mut self, repo: &LocalRepository) -> (rows: Result<String, Error>)
        requires
            old(self).wf(),
        ensures
            final(self).wf(),
            old(self)@.diffed ==> rows == Err::<String, Error>(Error::ProtocolFailure)
                && final(self)@ == old(self)@,
            !old(self)@.diffed ==> final(self)@ == transferred(old(self)@, old(self)@.objects)
                && (match rows {
                Ok(text) => all_readable(repo.objects@, missing_in(old(self)@)) && text@
                    == export_text(repo.objects@, missing_in(old(self)@)),
                Err(e) => !all_readable(repo.objects@, missing_in(old(self)@)) && e
                    == Error::ProtocolFailure,
            }),
    {
        let missing = self.client.diff_object_list_direct()?;
        export_rows(repo, &missing)
    }

    /// Reconciling references: upserts every local reference and then
    /// `HEAD`, a peeled tag's synthetic reference before the tag itself,
    /// and records for each upsert whether the store's value changed.
    pub fn update_refs(&mut self, repo: &LocalRepository) -> (done: Result<Vec<RefChange>, Error>)
        requires
            old(self).wf(),
        ensures
            final(self).wf(),
            final(self)@ == after_writes(old(self)@, ref_plan(repo.refs@, repo.head)),
            match done {
                Ok(changes) => records_writes(
                    changes@,
                    old(self)@,
                    ref_plan(repo.refs@, repo.head),
                ),
                Err(_) => false,
            },
    {
        let plan = plan_ref_writes(repo);
        let ghost writes = writes_view(plan@);
        let mut changes: Vec<RefChange> = Vec::new();
        let mut i: usize = 0;
        while i < plan.len()
            invariant
                i <= plan@.len(),
                self.wf(),
                writes == writes_view(plan@),
                self@ == after_writes(old(self)@, writes.take(i as int)),
                changes@.len() == i,
                forall|j: int|
                    0 <= j < i ==> {
                        &&& (#[trigger] changes@[j]).name@ == writes[j].0
                        &&& changes@[j].target@ == writes[j].1
                        &&& changes@[j].synthetic == writes[j].2
                        &&& changes@[j].changed == changes_ref(
                            after_writes(old(self)@, writes.take(j)),
                            writes[j].0,
                            writes[j].1,
                        )
                    },
            decreases plan@.len() - i,
        {
            assert(writes.take(i + 1).drop_last() =~= writes.take(i as int));
            let changed = self.client.set_ref(&plan[i].name, &plan[i].target)?;
            changes.push(
                RefChange {
                    name: plan[i].name.clone(),
                    target: plan[i].target.clone(),
                    synthetic: plan[i].synthetic,
                    changed,
                },
            );
            i = i + 1;
        }
        assert(writes.take(i as int) =~= writes);
        Ok(changes)
    }
}

} // verus!
