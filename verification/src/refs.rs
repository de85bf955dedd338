use vstd::prelude::*;
use crate::client::StoreView;
use crate::client::after_set_ref;
use crate::client::changes_ref;
use crate::local::LocalRef;
use crate::local::LocalRepository;
use crate::local::RefTarget;

verus! {

/// One planned upsert of a reference.
pub struct RefWrite {
    pub name: String,
    pub target: String,
    /// Whether this is the synthetic reference of a peeled tag.
    pub synthetic: bool,
}

/// One upsert as it was carried out, with the store's word on whether the
/// value changed.
pub struct RefChange {
    pub name: String,
    pub target: String,
    /// Whether this is the synthetic reference of a peeled tag.
    pub synthetic: bool,
    pub changed: bool,
}

/// The text of a target: the name of a reference, or an identifier.
pub open spec fn target_text(target: RefTarget) -> Seq<char> {
    match target {
        RefTarget::Symbolic(name) => name@,
        RefTarget::Direct(id) => id@,
    }
}

/// The upserts for one reference under `name`, each with its name, its
/// target and whether it is synthetic: for a peeled tag first the
/// synthetic reference `name^{}` at the peeled target, then the reference
/// itself.
pub open spec fn writes_of(reference: LocalRef, name: Seq<char>) -> Seq<(Seq<char>, Seq<char>, bool)> {
    match reference.peeled {
        Some(peeled) => seq![
            (name + "^{}"@, peeled@, true),
            (name, target_text(reference.target), false),
        ],
        None => seq![(name, target_text(reference.target), false)],
    }
}

/// The upserts for the references, in order, each under its own name.
pub open spec fn plan_of(refs: Seq<LocalRef>) -> Seq<(Seq<char>, Seq<char>, bool)>
    decreases refs.len(),
{
    if refs.len() == 0 {
        Seq::empty()
    } else {
        plan_of(refs.drop_last()) + writes_of(refs.last(), refs.last().name@)
    }
}

/// The upserts of a reconciliation: every reference, then `HEAD` where it
/// can be read.
pub open spec fn ref_plan(refs: Seq<LocalRef>, head: Option<LocalRef>) -> Seq<(Seq<char>, Seq<char>, bool)> {
    plan_of(refs) + (match head {
        Some(reference) => writes_of(reference, "HEAD"@),
        None => Seq::empty(),
    })
}

/// The planned upserts as names and targets.
pub open spec fn writes_view(plan: Seq<RefWrite>) -> Seq<(Seq<char>, Seq<char>, bool)> {
    plan.map_values(|write: RefWrite| (write.name@, write.target@, write.synthetic))
}

/// The state after the upserts were carried out one after another.
pub open spec fn after_writes(state: StoreView, plan: Seq<(Seq<char>, Seq<char>, bool)>) -> StoreView
    decreases plan.len(),
{
    if plan.len() == 0 {
        state
    } else {
        after_set_ref(after_writes(state, plan.drop_last()), plan.last().0, plan.last().1)
    }
}

/// `changes` records the upserts of `plan` on `state`, each with whether
/// it changed the value that the reference had by then.
pub open spec fn records_writes(
    changes: Seq<RefChange>,
    state: StoreView,
    plan: Seq<(Seq<char>, Seq<char>, bool)>,
) -> bool {
    &&& changes.len() == plan.len()
    &&& forall|i: int|
        0 <= i < changes.len() ==> {
            &&& (#[trigger] changes[i]).name@ == plan[i].0
            &&& changes[i].target@ == plan[i].1
            &&& changes[i].synthetic == plan[i].2
            &&& changes[i].changed == changes_ref(
                after_writes(state, plan.take(i)),
                plan[i].0,
                plan[i].1,
            )
        }
}

fn target_string(target: &RefTarget) -> (text: String)
    ensures
        text@ == target_text(*target),
{
    match target {
        RefTarget::Symbolic(name) => name.clone(),
        RefTarget::Direct(id) => id.clone(),
    }
}

/// Plans the upserts for one reference under the given name.
pub fn push_ref_writes(plan: &mut Vec<RefWrite>, reference: &LocalRef, name: &String)
    ensures
        writes_view(final(plan)@) == writes_view(old(plan)@) + writes_of(*reference, name@),
{
    match &reference.peeled {
        Some(peeled) => {
            let mut peeled_name = name.clone();
            peeled_name.append("^{}");
            plan.push(RefWrite { name: peeled_name, target: peeled.clone(), synthetic: true });
        },
        None => {},
    }
    plan.push(
        RefWrite { name: name.clone(), target: target_string(&reference.target), synthetic: false },
    );
    assert(writes_view(plan@) =~= writes_view(old(plan)@) + writes_of(*reference, name@));
}

/// Plans the upserts of a reconciliation.
pub fn plan_ref_writes(repo: &LocalRepository) -> (plan: Vec<RefWrite>)
    ensures
        writes_view(plan@) == ref_plan(repo.refs@, repo.head),
{
    let mut plan: Vec<RefWrite> = Vec::new();
    let mut i: usize = 0;
    assert(writes_view(plan@) =~= plan_of(repo.refs@.take(0)));
    while i < repo.refs.len()
        invariant
            i <= repo.refs@.len(),
            writes_view(plan@) == plan_of(repo.refs@.take(i as int)),
        decreases repo.refs@.len() - i,
    {
        assert(repo.refs@.take(i + 1).drop_last() =~= repo.refs@.take(i as int));
        push_ref_writes(&mut plan, &repo.refs[i], &repo.refs[i].name);
        i = i + 1;
    }
    assert(repo.refs@.take(i as int) =~= repo.refs@);
    match &repo.head {
        Some(reference) => {
            let name = String::from_str("HEAD");
            push_ref_writes(&mut plan, reference, &name);
        },
        None => {
            assert(writes_view(plan@) =~= ref_plan(repo.refs@, repo.head));
        },
    }
    plan
}

} // verus!
