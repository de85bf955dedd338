use vstd::prelude::*;
use crate::object::ObjectKind;
use crate::object::object_digest;

verus! {

/// One object of the local object database.
pub struct LocalObject {
    pub id: String,
    pub kind: ObjectKind,
    pub data: Vec<u8>,
}

/// What a local reference points at: another reference by name, or an
/// object by identifier.
pub enum RefTarget {
    Symbolic(String),
    Direct(String),
}

/// One reference of the local repository.
pub struct LocalRef {
    pub name: String,
    pub target: RefTarget,
    /// The dereferenced target, where the reference is a peeled tag.
    pub peeled: Option<String>,
}

/// The local repository as the engine reads it: its objects in the order
/// in which the object database enumerates them, its references, and the
/// `HEAD` pointer where it can be read.
pub struct LocalRepository {
    pub objects: Vec<LocalObject>,
    pub refs: Vec<LocalRef>,
    pub head: Option<LocalRef>,
}

/// The object that a read by identifier returns: the last one enumerated
/// under that identifier, if any.
pub open spec fn local_object(objects: Seq<LocalObject>, id: Seq<char>) -> Option<LocalObject>
    decreases objects.len(),
{
    if objects.len() == 0 {
        None
    } else if objects.last().id@ == id {
        Some(objects.last())
    } else {
        local_object(objects.drop_last(), id)
    }
}

/// The identifiers of the objects, in enumeration order.
pub open spec fn local_ids(objects: Seq<LocalObject>) -> Seq<String> {
    Seq::new(objects.len(), |i: int| objects[i].id)
}

/// An identifier is sound when the local database holds an object under it
/// whose canonical encoding has that identifier as its digest.
pub open spec fn sound(objects: Seq<LocalObject>, id: Seq<char>) -> bool {
    match local_object(objects, id) {
        Some(object) => object_digest(object.kind, object.data@.len(), object.data@) == id,
        None => false,
    }
}

impl LocalRepository {
    /// Reads an object by identifier.
    pub fn read(&self, id: &String) -> (found: Option<&LocalObject>)
        ensures
            match found {
                Some(object) => local_object(self.objects@, id@) == Some(*object),
                None => local_object(self.objects@, id@).is_none(),
            },
    {
        let mut i: usize = self.objects.len();
        assert(self.objects@.take(i as int) =~= self.objects@);
        while i > 0
            invariant
                i <= self.objects@.len(),
                local_object(self.objects@, id@) == local_object(self.objects@.take(i as int), id@),
            decreases i,
        {
            assert(self.objects@.take(i as int).drop_last() =~= self.objects@.take(i - 1));
            if self.objects[i - 1].id == *id {
                return Some(&self.objects[i - 1]);
            }
            i = i - 1;
        }
        None
    }
}

} // verus!
