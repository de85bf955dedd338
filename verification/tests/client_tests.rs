use git_sql::client::{CyclePhase, GitSqlClient};
use git_sql::error::Error;
use git_sql::object::{object_id, ObjectKind};

fn client() -> GitSqlClient {
    GitSqlClient::new(String::from("postgres://localhost/repo"))
}

fn s(text: &str) -> String {
    String::from(text)
}

#[test]
fn url_is_kept() {
    assert_eq!(client().url(), "postgres://localhost/repo");
}

#[test]
fn read_of_an_absent_object_is_not_found() {
    let c = client();
    assert_eq!(c.read_raw_object(&s("00")), Err(Error::NotFound));
    assert_eq!(c.read_object(&s("00")), Err(Error::NotFound));
}

#[test]
fn insert_then_read_raw_and_decoded() {
    let mut c = client();
    let id = object_id(&ObjectKind::Blob, 2, b"hi");
    assert_eq!(c.insert_object(&id, &ObjectKind::Blob, 2, b"hi"), Ok(()));
    assert_eq!(c.read_raw_object(&id), Ok(b"blob 2\0hi".to_vec()));
    assert_eq!(c.read_object(&id), Ok((ObjectKind::Blob, b"hi".to_vec())));
}

#[test]
fn insert_is_idempotent() {
    let mut c = client();
    let id = object_id(&ObjectKind::Blob, 2, b"hi");
    c.insert_object_verify(&ObjectKind::Blob, 2, b"hi", &id).unwrap();
    c.insert_object_verify(&ObjectKind::Blob, 2, b"hi", &id).unwrap();
    let handle = c.start_object_list().unwrap();
    c.add_hashes_to_object_list(&handle, &vec![id.clone(), s("other")]).unwrap();
    assert_eq!(c.diff_object_list_direct(), Ok(vec![s("other")]));
    assert_eq!(c.read_object(&id), Ok((ObjectKind::Blob, b"hi".to_vec())));
}

#[test]
fn a_second_insert_under_one_hash_keeps_the_first_object() {
    let mut c = client();
    c.insert_object(&s("k"), &ObjectKind::Blob, 1, b"a").unwrap();
    c.insert_object(&s("k"), &ObjectKind::Tree, 1, b"b").unwrap();
    assert_eq!(c.read_object(&s("k")), Ok((ObjectKind::Blob, b"a".to_vec())));
}

#[test]
fn verified_insert_rejects_a_mismatch_and_writes_nothing() {
    let mut c = client();
    let wrong = s("0000000000000000000000000000000000000000");
    let done = c.insert_object_verify(&ObjectKind::Blob, 2, b"hi", &wrong);
    assert_eq!(
        done,
        Err(Error::HashMismatch {
            expected: wrong.clone(),
            actual: s("32f95c0d1244a78b2be1bab8de17906fabb2c4a8"),
        })
    );
    assert_eq!(c.read_raw_object(&wrong), Err(Error::NotFound));
    assert_eq!(
        c.read_raw_object(&s("32f95c0d1244a78b2be1bab8de17906fabb2c4a8")),
        Err(Error::NotFound)
    );
}

#[test]
fn verified_insert_checks_the_size_too() {
    let mut c = client();
    let id = object_id(&ObjectKind::Blob, 2, b"hi");
    assert!(matches!(
        c.insert_object_verify(&ObjectKind::Blob, 3, b"hi", &id),
        Err(Error::HashMismatch { .. })
    ));
}

#[test]
fn staging_needs_an_open_list() {
    let mut c = client();
    let handle = c.start_object_list().unwrap();
    c.end_object_list().unwrap();
    assert_eq!(c.add_hashes_to_object_list(&handle, &vec![s("a")]), Err(Error::ProtocolFailure));
    assert_eq!(c.diff_object_list_direct(), Err(Error::ProtocolFailure));
    assert_eq!(c.end_object_list(), Err(Error::ProtocolFailure));
}

#[test]
fn diff_is_local_minus_durable_for_any_batching() {
    let local = vec![s("a"), s("b"), s("c"), s("d"), s("e")];
    for batch in 1..7 {
        let mut c = client();
        c.insert_object(&s("b"), &ObjectKind::Blob, 0, b"").unwrap();
        c.insert_object(&s("d"), &ObjectKind::Blob, 0, b"").unwrap();
        c.insert_object(&s("z"), &ObjectKind::Blob, 0, b"").unwrap();
        let handle = c.start_object_list().unwrap();
        for part in local.chunks(batch) {
            c.add_hashes_to_object_list(&handle, &part.to_vec()).unwrap();
        }
        assert_eq!(c.diff_object_list_direct(), Ok(vec![s("a"), s("c"), s("e")]));
    }
}

#[test]
fn a_staging_set_is_consumed_once() {
    let mut c = client();
    let handle = c.start_object_list().unwrap();
    c.add_hashes_to_object_list(&handle, &vec![s("a")]).unwrap();
    assert_eq!(c.diff_object_list_direct(), Ok(vec![s("a")]));
    assert_eq!(c.diff_object_list_direct(), Err(Error::ProtocolFailure));
    c.start_object_list().unwrap();
    assert_eq!(c.diff_object_list_direct(), Ok(Vec::new()));
}

#[test]
fn diff_with_progress_metadata() {
    let mut c = client();
    c.insert_object(&s("b"), &ObjectKind::Blob, 0, b"").unwrap();
    let handle = c.start_object_list().unwrap();
    c.add_hashes_to_object_list(&handle, &vec![s("a"), s("b"), s("c")]).unwrap();
    let rows = c.diff_object_list().unwrap();
    let seen: Vec<(String, usize, usize)> =
        rows.into_iter().map(|r| (r.hash, r.index, r.total)).collect();
    assert_eq!(seen, vec![(s("a"), 0, 2), (s("c"), 1, 2)]);
}

#[test]
fn diff_in_chunks() {
    let mut c = client();
    let handle = c.start_object_list().unwrap();
    c.add_hashes_to_object_list(&handle, &vec![s("a"), s("b"), s("c"), s("d"), s("e")]).unwrap();
    assert_eq!(
        c.diff_object_list_chunked(2),
        Ok(vec![vec![s("a"), s("b")], vec![s("c"), s("d")], vec![s("e")]])
    );
}

#[test]
fn set_ref_reports_change() {
    let mut c = client();
    assert_eq!(c.set_ref(&s("refs/heads/main"), &s("aa")), Ok(true));
    assert_eq!(c.set_ref(&s("refs/heads/main"), &s("aa")), Ok(false));
    assert_eq!(c.set_ref(&s("refs/heads/main"), &s("bb")), Ok(true));
    assert_eq!(c.resolve_ref(&s("refs/heads/main")), Ok(s("bb")));
    assert_eq!(c.list_ref_names(), Ok(vec![s("refs/heads/main")]));
}

#[test]
fn resolve_follows_symbolic_chains() {
    let mut c = client();
    c.set_ref(&s("HEAD"), &s("refs/heads/main")).unwrap();
    c.set_ref(&s("refs/heads/main"), &s("aa")).unwrap();
    assert_eq!(c.resolve_ref(&s("HEAD")), Ok(s("aa")));
    assert_eq!(c.resolve_ref(&s("refs/heads/none")), Err(Error::NotFound));
    let mut refs = c.list_refs().unwrap();
    refs.sort();
    assert_eq!(refs, vec![(s("HEAD"), s("aa")), (s("refs/heads/main"), s("aa"))]);
}

#[test]
fn a_chain_that_does_not_end_is_not_found() {
    let mut c = client();
    c.set_ref(&s("a"), &s("b")).unwrap();
    c.set_ref(&s("b"), &s("a")).unwrap();
    assert_eq!(c.resolve_ref(&s("a")), Err(Error::NotFound));
    assert_eq!(c.list_refs(), Err(Error::NotFound));
}

#[test]
fn read_file_at_a_revision() {
    let mut c = client();
    c.insert_object(&s("f1"), &ObjectKind::Blob, 5, b"hello").unwrap();
    c.set_ref(&s("HEAD"), &s("refs/heads/main")).unwrap();
    c.set_ref(&s("refs/heads/main"), &s("c1")).unwrap();
    c.link_path(s("c1"), s("README"), s("f1"));
    assert_eq!(c.read_file_at(&s("README"), &s("HEAD")), Ok((ObjectKind::Blob, b"hello".to_vec())));
    assert_eq!(c.read_file_at(&s("README"), &s("c1")), Ok((ObjectKind::Blob, b"hello".to_vec())));
    assert_eq!(c.read_file_at(&s("LICENSE"), &s("HEAD")), Err(Error::NotFound));
    assert_eq!(c.read_file_at(&s("README"), &s("c2")), Err(Error::NotFound));
    c.link_path(s("c1"), s("gone"), s("f2"));
    assert_eq!(c.read_file_at(&s("gone"), &s("HEAD")), Err(Error::NotFound));
}

#[test]
fn a_transaction_writes_nothing_before_its_commit() {
    let mut c = client();
    let mut transact = c.transaction();
    GitSqlClient::insert_object_transaction(&mut transact, &s("a"), &ObjectKind::Blob, 1, b"x").unwrap();
    GitSqlClient::insert_object_transaction(&mut transact, &s("b"), &ObjectKind::Tree, 0, b"").unwrap();
    GitSqlClient::insert_object_transaction(&mut transact, &s("a"), &ObjectKind::Tag, 1, b"y").unwrap();
    assert_eq!(c.read_object(&s("a")), Err(Error::NotFound));
    assert_eq!(c.commit(transact), Ok(()));
    assert_eq!(c.read_object(&s("a")), Ok((ObjectKind::Blob, b"x".to_vec())));
    assert_eq!(c.read_object(&s("b")), Ok((ObjectKind::Tree, Vec::new())));
}

#[test]
fn a_dropped_transaction_leaves_nothing() {
    let mut c = client();
    {
        let mut transact = c.transaction();
        GitSqlClient::insert_object_transaction(&mut transact, &s("a"), &ObjectKind::Blob, 1, b"x").unwrap();
    }
    assert_eq!(c.read_object(&s("a")), Err(Error::NotFound));
    assert_eq!(c.commit(c.transaction()), Ok(()));
}

#[test]
fn insert_through_a_held_session() {
    let mut c = client();
    GitSqlClient::insert_object_indirect(&mut c, &s("a"), &ObjectKind::Commit, 3, b"abc").unwrap();
    assert_eq!(c.read_raw_object(&s("a")), Ok(b"commit 3\0abc".to_vec()));
    assert_eq!(GitSqlClient::encode_object(&ObjectKind::Commit, 3, b"abc"), b"commit 3\0abc".to_vec());
}

#[test]
fn a_cycle_passes_through_its_phases() {
    let mut c = client();
    assert_eq!(c.phase(), CyclePhase::Idle);
    let handle = c.start_object_list().unwrap();
    assert_eq!(c.phase(), CyclePhase::Enumerating);
    c.add_hashes_to_object_list(&handle, &vec![s("a")]).unwrap();
    assert_eq!(c.phase(), CyclePhase::Enumerating);
    c.diff_object_list_direct().unwrap();
    assert_eq!(c.phase(), CyclePhase::ReconcilingRefs);
    c.set_ref(&s("HEAD"), &s("a")).unwrap();
    assert_eq!(c.phase(), CyclePhase::ReconcilingRefs);
    c.end_object_list().unwrap();
    assert_eq!(c.phase(), CyclePhase::Idle);
}

#[test]
fn every_reference_is_listed_once() {
    let mut c = client();
    c.set_ref(&s("HEAD"), &s("refs/heads/main")).unwrap();
    c.set_ref(&s("refs/heads/main"), &s("b1")).unwrap();
    c.set_ref(&s("refs/tags/v1"), &s("t1")).unwrap();
    c.set_ref(&s("refs/heads/main"), &s("b2")).unwrap();
    let refs = c.list_refs().unwrap();
    assert_eq!(refs.len(), 3);
    assert!(refs.contains(&(s("refs/heads/main"), s("b2"))));
    assert!(refs.contains(&(s("HEAD"), s("b2"))));
    assert!(refs.contains(&(s("refs/tags/v1"), s("t1"))));
    let mut names = c.list_ref_names().unwrap();
    names.sort();
    assert_eq!(names, vec![s("HEAD"), s("refs/heads/main"), s("refs/tags/v1")]);
}
