use vstd::prelude::*;
use crate::error::Error;
use crate::object::ObjectKind;
use crate::object::check_digest;
use crate::object::encode_object;
use crate::object::encoded_bytes;
use crate::object::object_digest;
use crate::object::object_id;
use crate::partition::ceil_div;
use crate::partition::chunk_hashes;
use crate::partition::groups_of;
use crate::partition::joined;
use crate::table::Table;

verus! {

/// What the store holds of one object, as a mathematical value.
pub struct ObjectRecord {
    pub kind: ObjectKind,
    pub size: nat,
    pub data: Seq<u8>,
}

/// What the store holds of one object.
pub struct StoredObject {
    pub kind: ObjectKind,
    pub size: usize,
    pub data: Vec<u8>,
}

impl View for StoredObject {
    type V = ObjectRecord;

    open spec fn view(&self) -> ObjectRecord {
        ObjectRecord { kind: self.kind, size: self.size as nat, data: self.data@ }
    }
}

/// One answer of the store's tree lookup, as a mathematical value: under
/// the object `root`, `path` leads to the object `item`.
pub struct PathRecord {
    pub root: Seq<char>,
    pub path: Seq<char>,
    pub item: Seq<char>,
}

/// One answer of the store's tree lookup.
pub struct PathEntry {
    pub root: String,
    pub path: String,
    pub item: String,
}

impl View for PathEntry {
    type V = PathRecord;

    open spec fn view(&self) -> PathRecord {
        PathRecord { root: self.root@, path: self.path@, item: self.item@ }
    }
}

/// One insert that a transaction holds until it is committed.
pub struct PendingInsert {
    pub hash: String,
    pub object: StoredObject,
}

/// One insert of a transaction, as a mathematical value.
pub struct PendingRecord {
    pub hash: Seq<char>,
    pub record: ObjectRecord,
}

impl View for PendingInsert {
    type V = PendingRecord;

    open spec fn view(&self) -> PendingRecord {
        PendingRecord { hash: self.hash@, record: self.object@ }
    }
}

/// A transaction: inserts that reach the store together when it is
/// committed, and not at all when it is dropped.
pub struct Transaction {
    pending: Vec<PendingInsert>,
}

impl View for Transaction {
    type V = Seq<PendingRecord>;

    closed spec fn view(&self) -> Seq<PendingRecord> {
        self.pending@.map_values(|insert: PendingInsert| insert@)
    }
}

/// The state after the inserts of a transaction were applied in order.
pub open spec fn after_inserts(state: StoreView, inserts: Seq<PendingRecord>) -> StoreView
    decreases inserts.len(),
{
    if inserts.len() == 0 {
        state
    } else {
        after_insert(
            after_inserts(state, inserts.drop_last()),
            inserts.last().hash,
            inserts.last().record,
        )
    }
}

/// The handle of an open staging set, through which batches are added.
pub struct ObjectListHandle {}

/// One row of a difference, with its progress metadata.
pub struct DiffEntry {
    pub hash: String,
    pub index: usize,
    pub total: usize,
}

/// The state of a store session as a mathematical value.
pub struct StoreView {
    pub url: Seq<char>,
    /// The durable objects, by identifier.
    pub objects: Map<Seq<char>, ObjectRecord>,
    /// The references, by name.
    pub refs: Map<Seq<char>, Seq<char>>,
    /// The answers of the tree lookup; a later answer overrides an earlier.
    pub paths: Seq<PathRecord>,
    /// The staging set, while one is open.
    pub staged: Option<Seq<String>>,
    /// Whether the open staging set has been consumed by a difference.
    pub diffed: bool,
    /// The names of the references whose change was notified, oldest first.
    pub notified: Seq<Seq<char>>,
}

/// Where a session stands in a synchronization cycle.
#[derive(Debug, Clone, Copy, PartialEq, Eq, Structural)]
pub enum CyclePhase {
    /// No staging set is open.
    Idle,
    /// A staging set is open and takes identifiers.
    Enumerating,
    /// The staging set was consumed by a difference: the missing set has
    /// gone to a transfer, and the references are next.
    ReconcilingRefs,
}

/// The phase of a state. Opening a staging set begins the enumeration,
/// the difference ends it, and closing the staging set ends the cycle.
pub open spec fn phase_of(state: StoreView) -> CyclePhase {
    if state.staged.is_none() {
        CyclePhase::Idle
    } else if state.diffed {
        CyclePhase::ReconcilingRefs
    } else {
        CyclePhase::Enumerating
    }
}

/// The state after an insert under `hash`: an identifier that is stored
/// already keeps its object, a new one is stored with `record`.
pub open spec fn after_insert(state: StoreView, hash: Seq<char>, record: ObjectRecord) -> StoreView {
    if state.objects.contains_key(hash) {
        state
    } else {
        StoreView { objects: state.objects.insert(hash, record), ..state }
    }
}

/// Whether writing `target` under `name` changes the references.
pub open spec fn changes_ref(state: StoreView, name: Seq<char>, target: Seq<char>) -> bool {
    !(state.refs.contains_key(name) && state.refs[name] == target)
}

/// The state after the upsert of a reference: the reference holds the
/// target, and a change is notified under its name.
pub open spec fn after_set_ref(state: StoreView, name: Seq<char>, target: Seq<char>) -> StoreView {
    StoreView {
        refs: state.refs.insert(name, target),
        notified: if changes_ref(state, name, target) {
            state.notified.push(name)
        } else {
            state.notified
        },
        ..state
    }
}

/// The staged identifiers that the durable objects lack, in staging order.
pub open spec fn missing_of(staged: Seq<String>, objects: Map<Seq<char>, ObjectRecord>) -> Seq<
    String,
>
    decreases staged.len(),
{
    if staged.len() == 0 {
        Seq::empty()
    } else if objects.contains_key(staged.last()@) {
        missing_of(staged.drop_last(), objects)
    } else {
        missing_of(staged.drop_last(), objects).push(staged.last())
    }
}

/// Follows a chain of references from `name` for at most `fuel` steps, to
/// the first name that is no reference.
pub open spec fn chase(refs: Map<Seq<char>, Seq<char>>, name: Seq<char>, fuel: nat) -> Option<
    Seq<char>,
>
    decreases fuel,
{
    if !refs.contains_key(name) {
        Some(name)
    } else if fuel == 0 {
        None
    } else {
        chase(refs, refs[name], (fuel - 1) as nat)
    }
}

/// What a revision resolves to: itself where it names no reference, else
/// the end of its chain, if the chain ends.
pub open spec fn revision_target(refs: Map<Seq<char>, Seq<char>>, name: Seq<char>) -> Option<
    Seq<char>,
> {
    chase(refs, name, refs.dom().len())
}

/// What a reference resolves to: nothing where there is no such reference
/// or its chain does not end.
pub open spec fn resolved(refs: Map<Seq<char>, Seq<char>>, name: Seq<char>) -> Option<Seq<char>> {
    if refs.contains_key(name) {
        revision_target(refs, name)
    } else {
        None
    }
}

/// The object that `path` leads to under `root`, by the latest answer.
pub open spec fn path_item(paths: Seq<PathRecord>, root: Seq<char>, path: Seq<char>) -> Option<
    Seq<char>,
>
    decreases paths.len(),
{
    if paths.len() == 0 {
        None
    } else if paths.last().root == root && paths.last().path == path {
        Some(paths.last().item)
    } else {
        path_item(paths.drop_last(), root, path)
    }
}

/// The object found at `path` in the tree of the revision `at`.
pub open spec fn file_at(state: StoreView, path: Seq<char>, at: Seq<char>) -> Option<ObjectRecord> {
    match revision_target(state.refs, at) {
        Some(root) => match path_item(state.paths, root, path) {
            Some(item) => if state.objects.contains_key(item) {
                Some(state.objects[item])
            } else {
                None
            },
            None => None,
        },
        None => None,
    }
}

/// `names` lists the name of every reference of the store, each once.
pub open spec fn lists_names(names: Seq<String>, store: StoreView) -> bool {
    &&& names.len() == store.refs.dom().len()
    &&& forall|i: int| 0 <= i < names.len() ==> store.refs.contains_key((#[trigger] names[i])@)
    &&& forall|i: int, j: int|
        0 <= i < j < names.len() ==> (#[trigger] names[i])@ != (#[trigger] names[j])@
    &&& forall|name: Seq<char>| #[trigger]
        store.refs.contains_key(name) ==> exists|i: int|
            0 <= i < names.len() && (#[trigger] names[i])@ == name
}

/// `refs` lists every reference of the store once, each with what it
/// resolves to.
pub open spec fn lists_refs(refs: Seq<(String, String)>, store: StoreView) -> bool {
    &&& refs.len() == store.refs.dom().len()
    &&& forall|i: int|
        0 <= i < refs.len() ==> resolved(store.refs, (#[trigger] refs[i]).0@) == Some(refs[i].1@)
    &&& forall|i: int, j: int|
        0 <= i < j < refs.len() ==> (#[trigger] refs[i]).0@ != (#[trigger] refs[j]).0@
    &&& forall|name: Seq<char>| #[trigger]
        store.refs.contains_key(name) ==> exists|i: int|
            0 <= i < refs.len() && (#[trigger] refs[i]).0@ == name
}

/// The rows of a difference: each identifier with its position and the
/// total.
pub open spec fn is_progress_of(entries: Seq<DiffEntry>, missing: Seq<String>) -> bool {
    &&& entries.len() == missing.len()
    &&& forall|i: int|
        0 <= i < entries.len() ==> (#[trigger] entries[i]).hash == missing[i] && entries[i].index
            == i && entries[i].total == missing.len()
}

fn copy_bytes(bytes: &[u8]) -> (out: Vec<u8>)
    ensures
        out@ == bytes@,
{
    let mut out: Vec<u8> = Vec::new();
    let mut i: usize = 0;
    while i < bytes.len()
        invariant
            i <= bytes@.len(),
            out@ == bytes@.take(i as int),
        decreases bytes@.len() - i,
    {
        out.push(bytes[i]);
        assert(bytes@.take(i + 1) =~= bytes@.take(i as int).push(bytes@[i as int]));
        i = i + 1;
    }
    assert(bytes@.take(i as int) =~= bytes@);
    out
}

/// A session with the store of one repository, held in memory: its
/// durable objects and references, the answers of its tree lookup, and the
/// session's staging set.
pub struct GitSqlClient {
    url: String,
    objects: Table<StoredObject>,
    refs: Table<String>,
    paths: Vec<PathEntry>,
    staging: Option<Vec<String>>,
    diffed: bool,
    notified: Vec<String>,
}

impl View for GitSqlClient {
    type V = StoreView;

    closed spec fn view(&self) -> StoreView {
        StoreView {
            url: self.url@,
            objects: self.objects.map(),
            refs: self.refs.map(),
            paths: self.paths@.map_values(|entry: PathEntry| entry@),
            staged: match self.staging {
                Some(list) => Some(list@),
                None => None,
            },
            diffed: self.diffed,
            notified: self.notified@.map_values(|name: String| name@),
        }
    }
}

impl GitSqlClient {
    /// The tables are consistent: each key has one row.
    pub closed spec fn wf(&self) -> bool {
        self.objects.wf() && self.refs.wf()
    }

    /// A consistent session has finitely many objects and references.
    pub proof fn lemma_finite(&self)
        requires
            self.wf(),
        ensures
            self@.objects.dom().finite(),
            self@.refs.dom().finite(),
    {
    }

    /// A session with an empty store.
    pub fn new(url: String) -> (client: GitSqlClient)
        ensures
            client.wf(),
            client@ == (StoreView {
                url: url@,
                objects: Map::empty(),
                refs: Map::empty(),
                paths: Seq::empty(),
                staged: None,
                diffed: false,
                notified: Seq::empty(),
            }),
    {
        let client = GitSqlClient {
            url,
            objects: Table::new(),
            refs: Table::new(),
            paths: Vec::new(),
            staging: None,
            diffed: false,
            notified: Vec::new(),
        };
        assert(client.paths@.map_values(|entry: PathEntry| entry@) =~= Seq::empty());
        assert(client.notified@.map_values(|name: String| name@) =~= Seq::empty());
        client
    }

    /// Where the session stands in its cycle.
    pub fn phase(&self) -> (phase: CyclePhase)
        ensures
            phase == phase_of(self@),
    {
        if self.staging.is_none() {
            CyclePhase::Idle
        } else if self.diffed {
            CyclePhase::ReconcilingRefs
        } else {
            CyclePhase::Enumerating
        }
    }

    /// The address that the session was opened with.
    pub fn url(&self) -> (url: String)
        ensures
            url@ == self@.url,
    {
        self.url.clone()
    }

    /// Reads the canonical encoding of an object.
    pub fn read_raw_object(&self, hash: &String) -> (found: Result<Vec<u8>, Error>)
        requires
            self.wf(),
        ensures
            match found {
                Ok(bytes) => self@.objects.contains_key(hash@) && bytes@ == encoded_bytes(
                    self@.objects[hash@].kind,
                    self@.objects[hash@].size,
                    self@.objects[hash@].data,
                ),
                Err(e) => !self@.objects.contains_key(hash@) && e == Error::NotFound,
            },
    {
        match self.objects.get(hash) {
            Some(object) => Ok(encode_object(&object.kind, object.size, object.data.as_slice())),
            None => Err(Error::NotFound),
        }
    }

    /// Reads the kind and the payload of an object.
    pub fn read_object(&self, hash: &String) -> (found: Result<(ObjectKind, Vec<u8>), Error>)
        requires
            self.wf(),
        ensures
            match found {
                Ok((kind, data)) => self@.objects.contains_key(hash@) && kind
                    == self@.objects[hash@].kind && data@ == self@.objects[hash@].data,
                Err(e) => !self@.objects.contains_key(hash@) && e == Error::NotFound,
            },
    {
        match self.objects.get(hash) {
            Some(object) => Ok((object.kind, copy_bytes(object.data.as_slice()))),
            None => Err(Error::NotFound),
        }
    }

    /// Encodes an object: `"<kind> <size>\0"` and then the payload.
    pub fn encode_object(kind: &ObjectKind, size: usize, data: &[u8]) -> (out: Vec<u8>)
        ensures
            out@ == encoded_bytes(*kind, size as nat, data@),
    {
        encode_object(kind, size, data)
    }

    /// Writes an object through a session that the caller holds, as a
    /// worker with a connection of its own does.
    pub fn insert_object_indirect(
        conn: &mut GitSqlClient,
        hash: &String,
        kind: &ObjectKind,
        size: usize,
        data: &[u8],
    ) -> (done: Result<(), Error>)
        requires
            old(conn).wf(),
        ensures
            final(conn).wf(),
            done is Ok,
            final(conn)@ == after_insert(
                old(conn)@,
                hash@,
                ObjectRecord { kind: *kind, size: size as nat, data: data@ },
            ),
    {
        conn.insert_object(hash, kind, size, data)
    }

    /// Opens a transaction, which holds no insert yet.
    pub fn transaction(&self) -> (transact: Transaction)
        ensures
            transact@ == Seq::<PendingRecord>::empty(),
    {
        let transact = Transaction { pending: Vec::new() };
        assert(transact@ =~= Seq::<PendingRecord>::empty());
        transact
    }

    /// Adds an insert to a transaction. The store does not change before
    /// the transaction is committed.
    pub fn insert_object_transaction(
        transact: &mut Transaction,
        hash: &String,
        kind: &ObjectKind,
        size: usize,
        data: &[u8],
    ) -> (done: Result<(), Error>)
        ensures
            done is Ok,
            final(transact)@ == old(transact)@.push(
                PendingRecord {
                    hash: hash@,
                    record: ObjectRecord { kind: *kind, size: size as nat, data: data@ },
                },
            ),
    {
        let object = StoredObject { kind: *kind, size, data: copy_bytes(data) };
        transact.pending.push(PendingInsert { hash: hash.clone(), object });
        assert(transact@ =~= old(transact)@.push(
            PendingRecord {
                hash: hash@,
                record: ObjectRecord { kind: *kind, size: size as nat, data: data@ },
            },
        ));
        Ok(())
    }

    /// Commits a transaction: its inserts are applied in order, each as
    /// an insert of its own would be.
    pub fn commit(&mut self, transact: Transaction) -> (done: Result<(), Error>)
        requires
            old(self).wf(),
        ensures
            final(self).wf(),
            done is Ok,
            final(self)@ == after_inserts(old(self)@, transact@),
    {
        let ghost inserts = transact@;
        let pending = transact.pending;
        let mut i: usize = 0;
        let n = pending.len();
        while i < n
            invariant
                self.wf(),
                i <= n,
                n == pending@.len(),
                n == inserts.len(),
                forall|j: int| 0 <= j < n ==> (#[trigger] pending@[j])@ == inserts[j],
                self@ == after_inserts(old(self)@, inserts.take(i as int)),
            decreases n - i,
        {
            assert(inserts.take(i + 1).drop_last() =~= inserts.take(i as int));
            let insert = &pending[i];
            if self.objects.find(&insert.hash).is_none() {
                let object = StoredObject {
                    kind: insert.object.kind,
                    size: insert.object.size,
                    data: copy_bytes(insert.object.data.as_slice()),
                };
                self.objects.put(insert.hash.clone(), object);
            }
            i = i + 1;
        }
        assert(inserts.take(i as int) =~= inserts);
        Ok(())
    }

    /// Writes an object under the given identifier unless one is stored
    /// under it already.
    pub fn insert_object(&mut self, hash: &String, kind: &ObjectKind, size: usize, data: &[u8]) -> (done:
        Result<(), Error>)
        requires
            old(self).wf(),
        ensures
            final(self).wf(),
            done is Ok,
            final(self)@ == after_insert(
                old(self)@,
                hash@,
                ObjectRecord { kind: *kind, size: size as nat, data: data@ },
            ),
    {
        if self.objects.find(hash).is_none() {
            let object = StoredObject { kind: *kind, size, data: copy_bytes(data) };
            self.objects.put(hash.clone(), object);
        }
        Ok(())
    }

    /// Writes an object under the digest of its encoding, after checking
    /// that this digest is the expected one. A mismatch writes nothing.
    pub fn insert_object_verify(
        &mut self,
        kind: &ObjectKind,
        size: usize,
        data: &[u8],
        expected: &String,
    ) -> (done: Result<(), Error>)
        requires
            old(self).wf(),
        ensures
            final(self).wf(),
            object_digest(*kind, size as nat, data@) == expected@ ==> done is Ok && final(self)@
                == after_insert(
                old(self)@,
                expected@,
                ObjectRecord { kind: *kind, size: size as nat, data: data@ },
            ),
            object_digest(*kind, size as nat, data@) != expected@ ==> final(self)@ == old(self)@
                && (match done {
                Err(Error::HashMismatch { expected: wanted, actual }) => wanted@ == expected@
                    && actual@ == object_digest(*kind, size as nat, data@),
                _ => false,
            }),
    {
        let actual = object_id(kind, size, data);
        match check_digest(expected, actual) {
            Ok(hash) => {
                self.insert_object(&hash, kind, size, data)
            },
            Err(e) => Err(e),
        }
    }

    /// Upserts a reference and reports whether its value changed; a change
    /// is notified under the reference's name.
    pub fn set_ref(&mut self, name: &String, target: &String) -> (done: Result<bool, Error>)
        requires
            old(self).wf(),
        ensures
            final(self).wf(),
            done == Ok::<bool, Error>(changes_ref(old(self)@, name@, target@)),
            final(self)@ == after_set_ref(old(self)@, name@, target@),
    {
        let same = match self.refs.get(name) {
            Some(current) => *current == *target,
            None => false,
        };
        if same {
            assert(self.refs.map().insert(name@, target@) =~= self.refs.map());
            Ok(false)
        } else {
            self.refs.put(name.clone(), target.clone());
            self.notified.push(name.clone());
            assert(self.notified@.map_values(|name: String| name@) =~= old(self).notified@.map_values(
                |name: String| name@,
            ).push(name@));
            Ok(true)
        }
    }

    /// Records an answer of the tree lookup: under `root`, `path` leads to
    /// `item`.
    pub fn link_path(&mut self, root: String, path: String, item: String)
        requires
            old(self).wf(),
        ensures
            final(self).wf(),
            final(self)@ == (StoreView {
                paths: old(self)@.paths.push(PathRecord { root: root@, path: path@, item: item@ }),
                ..old(self)@
            }),
    {
        let entry = PathEntry { root, path, item };
        self.paths.push(entry);
        assert(self.paths@.map_values(|entry: PathEntry| entry@) =~= old(self).paths@.map_values(
            |entry: PathEntry| entry@,
        ).push(entry@));
    }
    /// Opens a fresh staging set, purging what an earlier cycle left.
    pub fn start_object_list(&mut self) -> (handle: Result<ObjectListHandle, Error>)
        requires
            old(self).wf(),
        ensures
            final(self).wf(),
            handle is Ok,
            final(self)@ == (StoreView {
                staged: Some(Seq::<String>::empty()),
                diffed: false,
                ..old(self)@
            }),
    {
        self.staging = Some(Vec::new());
        self.diffed = false;
        Ok(ObjectListHandle {})
    }

    /// Appends one batch of identifiers to the staging set. Without an
    /// open staging set nothing is staged.
    pub fn add_hashes_to_object_list(&mut self, handle: &ObjectListHandle, hashes: &Vec<String>) -> (done:
        Result<(), Error>)
        requires
            old(self).wf(),
        ensures
            final(self).wf(),
            match old(self)@.staged {
                Some(list) => done is Ok && final(self)@ == (StoreView {
                    staged: Some(list + hashes@),
                    ..old(self)@
                }),
                None => done == Err::<(), Error>(Error::ProtocolFailure)
                    && final(self)@ == old(self)@,
            },
    {
        let mut list = match self.staging.take() {
            Some(list) => list,
            None => {
                return Err(Error::ProtocolFailure);
            },
        };
        let ghost before = list@;
        let mut i: usize = 0;
        while i < hashes.len()
            invariant
                i <= hashes@.len(),
                list@ == before + hashes@.take(i as int),
            decreases hashes@.len() - i,
        {
            list.push(hashes[i].clone());
            assert(hashes@.take(i + 1) =~= hashes@.take(i as int).push(hashes@[i as int]));
            assert(list@ =~= before + hashes@.take(i + 1));
            i = i + 1;
        }
        assert(hashes@.take(i as int) =~= hashes@);
        self.staging = Some(list);
        Ok(())
    }

    /// Computes the missing set: the staged identifiers that the durable
    /// objects lack. A staging set is consumed by its first difference.
    pub fn diff_object_list_direct(&mut self) -> (missing: Result<Vec<String>, Error>)
        requires
            old(self).wf(),
        ensures
            final(self).wf(),
            match missing {
                Ok(list) => old(self)@.staged.is_some() && !old(self)@.diffed && list@
                    == missing_of(old(self)@.staged.unwrap(), old(self)@.objects) && final(self)@
                    == (StoreView { diffed: true, ..old(self)@ }),
                Err(e) => (old(self)@.staged.is_none() || old(self)@.diffed) && e
                    == Error::ProtocolFailure && final(self)@ == old(self)@,
            },
    {
        if self.diffed {
            return Err(Error::ProtocolFailure);
        }
        let mut out: Vec<String> = Vec::new();
        match &self.staging {
            Some(list) => {
                let mut i: usize = 0;
                while i < list.len()
                    invariant
                        self.objects.wf(),
                        i <= list@.len(),
                        out@ == missing_of(list@.take(i as int), self.objects.map()),
                    decreases list@.len() - i,
                {
                    assert(list@.take(i + 1).drop_last() =~= list@.take(i as int));
                    if self.objects.find(&list[i]).is_none() {
                        out.push(list[i].clone());
                    }
                    i = i + 1;
                }
                assert(list@.take(i as int) =~= list@);
            },
            None => {
                return Err(Error::ProtocolFailure);
            },
        }
        self.diffed = true;
        Ok(out)
    }

    /// Computes the missing set, each identifier with its position and the
    /// total.
    pub fn diff_object_list(&mut self) -> (rows: Result<Vec<DiffEntry>, Error>)
        requires
            old(self).wf(),
        ensures
            final(self).wf(),
            match rows {
                Ok(entries) => old(self)@.staged.is_some() && !old(self)@.diffed && is_progress_of(
                    entries@,
                    missing_of(old(self)@.staged.unwrap(), old(self)@.objects),
                ) && final(self)@ == (StoreView { diffed: true, ..old(self)@ }),
                Err(e) => (old(self)@.staged.is_none() || old(self)@.diffed) && e
                    == Error::ProtocolFailure && final(self)@ == old(self)@,
            },
    {
        let missing = self.diff_object_list_direct()?;
        let total = missing.len();
        let mut entries: Vec<DiffEntry> = Vec::new();
        let mut i: usize = 0;
        while i < total
            invariant
                total == missing@.len(),
                i <= total,
                entries@.len() == i,
                forall|j: int|
                    0 <= j < i ==> (#[trigger] entries@[j]).hash == missing@[j] && entries@[j].index
                        == j && entries@[j].total == total,
            decreases total - i,
        {
            entries.push(DiffEntry { hash: missing[i].clone(), index: i, total });
            i = i + 1;
        }
        Ok(entries)
    }

    /// Computes the missing set, cut into groups of `chunk_size`.
    pub fn diff_object_list_chunked(&mut self, chunk_size: usize) -> (chunks: Result<
        Vec<Vec<String>>,
        Error,
    >)
        requires
            old(self).wf(),
            chunk_size > 0,
        ensures
            final(self).wf(),
            match chunks {
                Ok(groups) => {
                    let missing = missing_of(old(self)@.staged.unwrap(), old(self)@.objects);
                    old(self)@.staged.is_some() && !old(self)@.diffed && joined(groups@) == missing
                        && groups_of(groups@, chunk_size as nat) && groups@.len() == ceil_div(
                        missing.len(),
                        chunk_size as nat,
                    ) && final(self)@ == (StoreView { diffed: true, ..old(self)@ })
                },
                Err(e) => (old(self)@.staged.is_none() || old(self)@.diffed) && e
                    == Error::ProtocolFailure && final(self)@ == old(self)@,
            },
    {
        let missing = self.diff_object_list_direct()?;
        Ok(chunk_hashes(&missing, chunk_size))
    }

    /// Closes the staging set and drops what was staged.
    pub fn end_object_list(&mut self) -> (done: Result<(), Error>)
        requires
            old(self).wf(),
        ensures
            final(self).wf(),
            match old(self)@.staged {
                Some(_) => done is Ok && final(self)@ == (StoreView {
                    staged: None,
                    diffed: false,
                    ..old(self)@
                }),
                None => done == Err::<(), Error>(Error::ProtocolFailure)
                    && final(self)@ == old(self)@,
            },
    {
        if self.staging.is_none() {
            return Err(Error::ProtocolFailure);
        }
        self.staging = None;
        self.diffed = false;
        Ok(())
    }

    /// Follows the chain of references that starts at a revision.
    fn revision(&self, name: &String) -> (target: Option<String>)
        requires
            self.wf(),
        ensures
            match target {
                Some(id) => revision_target(self@.refs, name@) == Some(id@),
                None => revision_target(self@.refs, name@).is_none(),
            },
    {
        let mut current = name.clone();
        let mut fuel: usize = self.refs.len();
        loop
            invariant
                self.wf(),
                revision_target(self@.refs, name@) == chase(self@.refs, current@, fuel as nat),
            decreases fuel,
        {
            match self.refs.get(&current) {
                None => {
                    return Some(current);
                },
                Some(next) => {
                    if fuel == 0 {
                        return None;
                    }
                    current = next.clone();
                    fuel = fuel - 1;
                },
            }
        }
    }

    /// Resolves a reference to the identifier at the end of its chain.
    pub fn resolve_ref(&self, input: &String) -> (target: Result<String, Error>)
        requires
            self.wf(),
        ensures
            match target {
                Ok(id) => resolved(self@.refs, input@) == Some(id@),
                Err(e) => resolved(self@.refs, input@).is_none() && e == Error::NotFound,
            },
    {
        if self.refs.find(input).is_none() {
            return Err(Error::NotFound);
        }
        match self.revision(input) {
            Some(id) => Ok(id),
            None => Err(Error::NotFound),
        }
    }

    /// Lists the name of every reference, each once, in the store's order.
    pub fn list_ref_names(&self) -> (names: Result<Vec<String>, Error>)
        requires
            self.wf(),
        ensures
            match names {
                Ok(list) => lists_names(list@, self@),
                Err(_) => false,
            },
    {
        let mut list: Vec<String> = Vec::new();
        let mut i: usize = 0;
        while i < self.refs.rows.len()
            invariant
                self.wf(),
                i <= self.refs.rows@.len(),
                list@.len() == i,
                forall|j: int| 0 <= j < i ==> (#[trigger] list@[j])@ == self.refs.rows@[j].key@,
            decreases self.refs.rows@.len() - i,
        {
            list.push(self.refs.rows[i].key.clone());
            i = i + 1;
        }
        proof {
            assert forall|j: int| 0 <= j < list@.len() implies self@.refs.contains_key(
                (#[trigger] list@[j])@,
            ) by {
                assert(self.refs.map().contains_key(self.refs.rows@[j].key@));
            }
            assert forall|name: Seq<char>| #[trigger]
                self@.refs.contains_key(name) implies exists|j: int|
                0 <= j < list@.len() && (#[trigger] list@[j])@ == name by {
                let j = choose|j: int|
                    0 <= j < self.refs.rows@.len() && #[trigger] self.refs.rows@[j].key@ == name;
                assert(list@[j]@ == name);
            }
        }
        Ok(list)
    }

    /// Lists every reference with what it resolves to, each once, in the
    /// store's order. A reference whose chain does not end fails the
    /// listing.
    pub fn list_refs(&self) -> (refs: Result<Vec<(String, String)>, Error>)
        requires
            self.wf(),
        ensures
            match refs {
                Ok(list) => lists_refs(list@, self@),
                Err(e) => e == Error::NotFound && exists|name: Seq<char>| #[trigger]
                    self@.refs.contains_key(name) && resolved(self@.refs, name).is_none(),
            },
    {
        let mut list: Vec<(String, String)> = Vec::new();
        let mut i: usize = 0;
        while i < self.refs.rows.len()
            invariant
                self.wf(),
                i <= self.refs.rows@.len(),
                list@.len() == i,
                forall|j: int|
                    0 <= j < i ==> (#[trigger] list@[j]).0@ == self.refs.rows@[j].key@ && resolved(
                        self@.refs,
                        list@[j].0@,
                    ) == Some(list@[j].1@),
            decreases self.refs.rows@.len() - i,
        {
            let name = self.refs.rows[i].key.clone();
            assert(self.refs.map().contains_key(self.refs.rows@[i as int].key@));
            match self.revision(&name) {
                Some(target) => {
                    list.push((name, target));
                },
                None => {
                    return Err(Error::NotFound);
                },
            }
            i = i + 1;
        }
        proof {
            assert forall|name: Seq<char>| #[trigger]
                self@.refs.contains_key(name) implies exists|j: int|
                0 <= j < list@.len() && (#[trigger] list@[j]).0@ == name by {
                let j = choose|j: int|
                    0 <= j < self.refs.rows@.len() && #[trigger] self.refs.rows@[j].key@ == name;
                assert(list@[j].0@ == name);
            }
        }
        Ok(list)
    }

    /// Looks a path up under a root object, by the latest answer.
    fn lookup_path(&self, root: &String, path: &String) -> (item: Option<&String>)
        ensures
            match item {
                Some(id) => path_item(self@.paths, root@, path@) == Some(id@),
                None => path_item(self@.paths, root@, path@).is_none(),
            },
    {
        let ghost records = self.paths@.map_values(|entry: PathEntry| entry@);
        let mut i: usize = self.paths.len();
        assert(records.take(i as int) =~= records);
        while i > 0
            invariant
                i <= self.paths@.len(),
                records == self.paths@.map_values(|entry: PathEntry| entry@),
                path_item(records, root@, path@) == path_item(records.take(i as int), root@, path@),
            decreases i,
        {
            assert(records.take(i as int).drop_last() =~= records.take(i - 1));
            assert(records[i - 1] == self.paths@[i - 1]@);
            if self.paths[i - 1].root == *root && self.paths[i - 1].path == *path {
                return Some(&self.paths[i - 1].item);
            }
            i = i - 1;
        }
        None
    }

    /// Reads the object found at `path` in the tree of the revision `at`.
    pub fn read_file_at(&self, path: &String, at: &String) -> (found: Result<
        (ObjectKind, Vec<u8>),
        Error,
    >)
        requires
            self.wf(),
        ensures
            match found {
                Ok((kind, data)) => match file_at(self@, path@, at@) {
                    Some(object) => kind == object.kind && data@ == object.data,
                    None => false,
                },
                Err(e) => file_at(self@, path@, at@).is_none() && e == Error::NotFound,
            },
    {
        let root = match self.revision(at) {
            Some(root) => root,
            None => {
                return Err(Error::NotFound);
            },
        };
        match self.lookup_path(&root, path) {
            Some(item) => self.read_object(item),
            None => Err(Error::NotFound),
        }
    }
}

} // verus!