use vstd::prelude::*;
use crate::error::Error;
use crate::local::LocalObject;
use crate::local::LocalRepository;
use crate::local::local_object;
use crate::object::hex_encode;
use crate::object::hex_text;

verus! {

/// One row of a bulk export: the identifier, a tab, the payload in
/// hexadecimal behind `\x`, and a line feed.
pub open spec fn export_row(id: Seq<char>, data: Seq<u8>) -> Seq<char> {
    id + "\t"@ + "\\x"@ + hex_text(data) + "\n"@
}

/// The rows of the identifiers, in order.
pub open spec fn export_text(local: Seq<LocalObject>, hashes: Seq<String>) -> Seq<char>
    decreases hashes.len(),
{
    if hashes.len() == 0 {
        Seq::empty()
    } else {
        let before = export_text(local, hashes.drop_last());
        match local_object(local, hashes.last()@) {
            Some(object) => before + export_row(hashes.last()@, object.data@),
            None => before,
        }
    }
}

/// The local database can read every identifier.
pub open spec fn all_readable(local: Seq<LocalObject>, hashes: Seq<String>) -> bool {
    forall|i: int| 0 <= i < hashes.len() ==> local_object(local, (#[trigger] hashes[i])@).is_some()
}

/// Writes the bulk-export rows of the given identifiers. An identifier
/// that the local database cannot read fails the whole export.
pub fn export_rows(repo: &LocalRepository, hashes: &Vec<String>) -> (rows: Result<String, Error>)
    ensures
        match rows {
            Ok(text) => all_readable(repo.objects@, hashes@) && text@ == export_text(
                repo.objects@,
                hashes@,
            ),
            Err(e) => !all_readable(repo.objects@, hashes@) && e == Error::ProtocolFailure,
        },
{
    let mut text = String::new();
    let mut i: usize = 0;
    while i < hashes.len()
        invariant
            i <= hashes@.len(),
            text@ == export_text(repo.objects@, hashes@.take(i as int)),
            forall|j: int| 0 <= j < i ==> local_object(repo.objects@, (#[trigger] hashes@[j])@).is_some(),
        decreases hashes@.len() - i,
    {
        let ghost before = text@;
        assert(hashes@.take(i + 1).drop_last() =~= hashes@.take(i as int));
        match repo.read(&hashes[i]) {
            None => {
                return Err(Error::ProtocolFailure);
            },
            Some(object) => {
                let encoded = hex_encode(&object.data);
                text.append(hashes[i].as_str());
                text.append("\t");
                text.append("\\x");
                text.append(encoded.as_str());
                text.append("\n");
                assert(text@ =~= before + export_row(hashes@[i as int]@, object.data@));
            },
        }
        i = i + 1;
    }
    assert(hashes@.take(i as int) =~= hashes@);
    Ok(text)
}

} // verus!
