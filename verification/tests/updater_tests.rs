use git_sql::client::GitSqlClient;
use git_sql::error::Error;
use git_sql::export::export_rows;
use git_sql::local::{LocalObject, LocalRef, LocalRepository, RefTarget};
use git_sql::object::{object_id, ObjectKind};
use git_sql::refs::plan_ref_writes;
use git_sql::transfer::{plan_unit, transfer};
use git_sql::updater::{plan_transfer, RepositoryUpdater, Strategy};

fn s(text: &str) -> String {
    String::from(text)
}

fn object(kind: ObjectKind, data: &[u8]) -> LocalObject {
    LocalObject { id: object_id(&kind, data.len(), data), kind, data: data.to_vec() }
}

fn direct(name: &str, id: &str) -> LocalRef {
    LocalRef { name: s(name), target: RefTarget::Direct(s(id)), peeled: None }
}

fn tree_of(blob_id: &str) -> Vec<u8> {
    let mut tree = b"100644 a.txt\0".to_vec();
    let bytes: Vec<u8> = (0..20)
        .map(|i| u8::from_str_radix(&blob_id[2 * i..2 * i + 2], 16).unwrap())
        .collect();
    tree.extend(bytes);
    tree
}

fn two_object_repo() -> (LocalRepository, String, String) {
    let a = object(ObjectKind::Blob, b"hi");
    let b = object(ObjectKind::Tree, &tree_of(&a.id));
    let (ida, idb) = (a.id.clone(), b.id.clone());
    let repo = LocalRepository {
        objects: vec![a, b],
        refs: vec![direct("refs/heads/main", &idb)],
        head: None,
    };
    (repo, ida, idb)
}

fn many_objects(n: usize) -> LocalRepository {
    let objects = (0..n).map(|i| object(ObjectKind::Blob, format!("payload {}", i).as_bytes())).collect();
    LocalRepository { objects, refs: Vec::new(), head: None }
}

fn stored(client: &GitSqlClient, repo: &LocalRepository) -> Vec<bool> {
    repo.objects.iter().map(|o| client.read_object(&o.id).is_ok()).collect()
}

#[test]
fn end_to_end_sequential_cycle() {
    let (repo, a, b) = two_object_repo();
    assert_eq!(a, "32f95c0d1244a78b2be1bab8de17906fabb2c4a8");
    assert_eq!(b, "959186c87f11cedbc03fb0aa728575ce3dbf3335");
    let client = GitSqlClient::new(s("db"));
    let mut updater = RepositoryUpdater::new(client).unwrap();
    assert_eq!(updater.process_objects(&repo), Ok(2));
    assert_eq!(updater.update_objects(&repo), Ok(()));
    assert_eq!(updater.client().read_object(&a), Ok((ObjectKind::Blob, b"hi".to_vec())));
    assert_eq!(updater.client().read_object(&b).unwrap().0, ObjectKind::Tree);
    assert_eq!(updater.client().read_raw_object(&a), Ok(b"blob 2\0hi".to_vec()));
    let changes = updater.update_refs(&repo).unwrap();
    assert_eq!(changes.len(), 1);
    assert!(changes[0].changed);
    assert_eq!(updater.client().resolve_ref(&s("refs/heads/main")), Ok(b.clone()));
    assert!(updater.client().list_refs().unwrap().contains(&(s("refs/heads/main"), b.clone())));
    let mut client = updater.finish();
    assert_eq!(client.diff_object_list_direct(), Err(Error::ProtocolFailure));
}

#[test]
fn a_second_cycle_has_nothing_to_transfer() {
    let (repo, _, _) = two_object_repo();
    let mut updater = RepositoryUpdater::new(GitSqlClient::new(s("db"))).unwrap();
    updater.process_objects(&repo).unwrap();
    updater.update_objects(&repo).unwrap();
    updater.update_refs(&repo).unwrap();
    let mut again = RepositoryUpdater::new(updater.finish()).unwrap();
    again.process_objects(&repo).unwrap();
    let report = again.update_objects_concurrent(&repo).unwrap();
    assert!(report.units.is_empty());
    let changes = again.update_refs(&repo).unwrap();
    assert!(changes.iter().all(|c| !c.changed));
}

#[test]
fn transfer_is_consumed_with_the_staging_set() {
    let (repo, _, _) = two_object_repo();
    let mut updater = RepositoryUpdater::new(GitSqlClient::new(s("db"))).unwrap();
    updater.process_objects(&repo).unwrap();
    updater.update_objects(&repo).unwrap();
    assert_eq!(updater.update_objects(&repo), Err(Error::ProtocolFailure));
    assert!(updater.update_objects_chunked(&repo).is_err());
    assert!(updater.generate_copy_csv(&repo).is_err());
}

#[test]
fn the_four_strategies_leave_the_same_objects() {
    let repo = many_objects(1203);
    let mut finals: Vec<Vec<bool>> = Vec::new();
    for strategy in 0..4 {
        let mut updater = RepositoryUpdater::new(GitSqlClient::new(s("db"))).unwrap();
        updater.process_objects(&repo).unwrap();
        match strategy {
            0 => updater.update_objects(&repo).unwrap(),
            1 => {
                let report = updater.update_objects_chunked(&repo).unwrap();
                assert_eq!(report.units.iter().map(|u| u.len()).collect::<Vec<usize>>(), vec![500, 500, 203]);
                assert!(report.failures.is_empty());
            }
            2 => {
                let report = updater.update_objects_fixed_workers(&repo, 4).unwrap();
                assert_eq!(report.units.iter().map(|u| u.len()).collect::<Vec<usize>>(), vec![301, 301, 301, 300]);
                assert!(report.failures.is_empty());
            }
            _ => {
                let report = updater.update_objects_concurrent(&repo).unwrap();
                assert_eq!(report.units.len(), 1203);
                assert!(report.failures.is_empty());
            }
        }
        let client = updater.finish();
        for o in &repo.objects {
            assert_eq!(client.read_object(&o.id), Ok((o.kind, o.data.clone())));
        }
        finals.push(stored(&client, &repo));
    }
    assert!(finals.iter().all(|f| *f == finals[0]));
}

fn corrupt_repo() -> LocalRepository {
    let mut repo = many_objects(5);
    repo.objects[2].data = b"tampered".to_vec();
    repo
}

#[test]
fn sequential_transfer_stops_at_the_first_failure() {
    let repo = corrupt_repo();
    let mut updater = RepositoryUpdater::new(GitSqlClient::new(s("db"))).unwrap();
    updater.process_objects(&repo).unwrap();
    let done = updater.update_objects(&repo);
    assert_eq!(
        done,
        Err(Error::HashMismatch {
            expected: repo.objects[2].id.clone(),
            actual: object_id(&ObjectKind::Blob, 8, b"tampered"),
        })
    );
    assert_eq!(stored(updater.client(), &repo), vec![true, true, false, false, false]);
}

#[test]
fn a_failing_object_fails_alone_when_each_is_a_unit() {
    let repo = corrupt_repo();
    let mut updater = RepositoryUpdater::new(GitSqlClient::new(s("db"))).unwrap();
    updater.process_objects(&repo).unwrap();
    let report = updater.update_objects_concurrent(&repo).unwrap();
    assert_eq!(report.failures.len(), 1);
    assert_eq!(report.failures[0].unit, 2);
    assert!(matches!(report.failures[0].error, Error::HashMismatch { .. }));
    assert_eq!(stored(updater.client(), &repo), vec![true, true, false, true, true]);
}

#[test]
fn a_failing_range_keeps_its_progress() {
    let repo = corrupt_repo();
    let mut updater = RepositoryUpdater::new(GitSqlClient::new(s("db"))).unwrap();
    updater.process_objects(&repo).unwrap();
    let report = updater.update_objects_fixed_workers(&repo, 2).unwrap();
    assert_eq!(report.units.iter().map(|u| u.len()).collect::<Vec<usize>>(), vec![3, 2]);
    assert_eq!(report.failures.len(), 1);
    assert_eq!(report.failures[0].unit, 0);
    assert_eq!(stored(updater.client(), &repo), vec![true, true, false, true, true]);
}

#[test]
fn a_failing_chunk_leaves_nothing_behind() {
    let repo = corrupt_repo();
    let mut client = GitSqlClient::new(s("db"));
    let ids: Vec<String> = repo.objects.iter().map(|o| o.id.clone()).collect();
    assert!(transfer(&mut client, &repo, &ids, true).is_err());
    assert_eq!(stored(&client, &repo), vec![false; 5]);
    assert!(transfer(&mut client, &repo, &ids, false).is_err());
    assert_eq!(stored(&client, &repo), vec![true, true, false, false, false]);
}

#[test]
fn an_unreadable_object_is_a_protocol_failure() {
    let repo = many_objects(2);
    let mut client = GitSqlClient::new(s("db"));
    let ids = vec![repo.objects[0].id.clone(), s("missing"), repo.objects[1].id.clone()];
    assert_eq!(transfer(&mut client, &repo, &ids, false), Err(Error::ProtocolFailure));
    assert_eq!(stored(&client, &repo), vec![true, false]);
    assert_eq!(export_rows(&repo, &ids), Err(Error::ProtocolFailure));
}

#[test]
fn staging_does_not_depend_on_the_batch_size() {
    let repo = many_objects(7);
    let ids: Vec<String> = repo.objects.iter().map(|o| o.id.clone()).collect();
    for batch in 1..9 {
        let mut updater = RepositoryUpdater::new(GitSqlClient::new(s("db"))).unwrap();
        updater.stage(&ids, batch).unwrap();
        let mut client = updater.finish();
        client.start_object_list().unwrap();
        let mut updater = RepositoryUpdater::new(client).unwrap();
        updater.stage(&ids, batch).unwrap();
        let report = updater.update_objects_concurrent(&repo).unwrap();
        assert_eq!(report.units.concat(), ids);
    }
}

#[test]
fn bulk_export_rows() {
    let (repo, a, b) = two_object_repo();
    let mut updater = RepositoryUpdater::new(GitSqlClient::new(s("db"))).unwrap();
    updater.process_objects(&repo).unwrap();
    let text = updater.generate_copy_csv(&repo).unwrap();
    let expected = format!(
        "{}\t\\x6869\n{}\t\\x{}{}\n",
        a, b, "31303036343420612e74787400", a
    );
    assert_eq!(text, expected);
    assert!(updater.client().read_object(&a).is_err());
}

#[test]
fn bulk_export_of_every_byte_value() {
    let data: Vec<u8> = vec![0x00, 0x0f, 0x10, 0xab, 0xff];
    let o = object(ObjectKind::Blob, &data);
    let id = o.id.clone();
    let repo = LocalRepository { objects: vec![o], refs: Vec::new(), head: None };
    assert_eq!(export_rows(&repo, &vec![id.clone()]), Ok(format!("{}\t\\x000f10abff\n", id)));
}

#[test]
fn references_are_reconciled_with_peeled_tags_and_head() {
    let repo = LocalRepository {
        objects: Vec::new(),
        refs: vec![
            direct("refs/heads/main", "c1"),
            LocalRef { name: s("refs/tags/v1"), target: RefTarget::Direct(s("t1")), peeled: Some(s("c1")) },
        ],
        head: Some(LocalRef {
            name: s("refs/heads/main"),
            target: RefTarget::Symbolic(s("refs/heads/main")),
            peeled: None,
        }),
    };
    let plan: Vec<(String, String)> =
        plan_ref_writes(&repo).into_iter().map(|w| (w.name, w.target)).collect();
    assert_eq!(
        plan,
        vec![
            (s("refs/heads/main"), s("c1")),
            (s("refs/tags/v1^{}"), s("c1")),
            (s("refs/tags/v1"), s("t1")),
            (s("HEAD"), s("refs/heads/main")),
        ]
    );
    let mut updater = RepositoryUpdater::new(GitSqlClient::new(s("db"))).unwrap();
    let changes = updater.update_refs(&repo).unwrap();
    assert_eq!(changes.iter().map(|c| c.changed).collect::<Vec<bool>>(), vec![true; 4]);
    assert_eq!(changes[1].name, "refs/tags/v1^{}");
    assert_eq!(changes.iter().map(|c| c.synthetic).collect::<Vec<bool>>(), vec![false, true, false, false]);
    let client = updater.finish();
    assert_eq!(client.resolve_ref(&s("HEAD")), Ok(s("c1")));
    assert_eq!(client.resolve_ref(&s("refs/tags/v1^{}")), Ok(s("c1")));
    assert_eq!(client.resolve_ref(&s("refs/tags/v1")), Ok(s("t1")));
    let mut again = RepositoryUpdater::new(client).unwrap();
    let changes = again.update_refs(&repo).unwrap();
    assert_eq!(changes.iter().map(|c| c.changed).collect::<Vec<bool>>(), vec![false; 4]);
}

#[test]
fn enumeration_stages_full_batches_and_the_partial_one() {
    let repo = many_objects(4001);
    let ids: Vec<String> = repo.objects.iter().map(|o| o.id.clone()).collect();
    let mut updater = RepositoryUpdater::new(GitSqlClient::new(s("db"))).unwrap();
    assert_eq!(updater.process_objects(&repo), Ok(4001));
    let mut client = updater.finish();
    client.start_object_list().unwrap();
    let mut updater = RepositoryUpdater::new(client).unwrap();
    updater.process_objects(&repo).unwrap();
    let report = updater.update_objects_fixed_workers(&repo, 3).unwrap();
    assert_eq!(report.units.iter().map(|u| u.len()).collect::<Vec<usize>>(), vec![1334, 1334, 1333]);
    assert_eq!(report.units.concat(), ids);
    assert!(report.failures.is_empty());
}

#[test]
fn an_empty_repository_has_an_empty_cycle() {
    let repo = LocalRepository { objects: Vec::new(), refs: Vec::new(), head: None };
    let mut updater = RepositoryUpdater::new(GitSqlClient::new(s("db"))).unwrap();
    assert_eq!(updater.process_objects(&repo), Ok(0));
    let report = updater.update_objects_fixed_workers(&repo, 4).unwrap();
    assert!(report.units.is_empty());
    assert!(updater.update_refs(&repo).unwrap().is_empty());
    assert_eq!(updater.client().list_refs(), Ok(Vec::new()));
}

#[test]
fn a_unit_plan_holds_the_verified_encodings() {
    let repo = corrupt_repo();
    let ids: Vec<String> = repo.objects.iter().map(|o| o.id.clone()).collect();
    let plan = plan_unit(&repo, &ids, false);
    assert_eq!(plan.writes.len(), 2);
    assert_eq!(plan.writes[0].hash, ids[0]);
    assert_eq!(plan.writes[0].content, b"blob 9\0payload 0".to_vec());
    assert_eq!(plan.writes[1].content, b"blob 9\0payload 1".to_vec());
    assert!(matches!(plan.failure, Some(Error::HashMismatch { .. })));
    let plan = plan_unit(&repo, &ids, true);
    assert!(plan.writes.is_empty());
    assert!(matches!(plan.failure, Some(Error::HashMismatch { .. })));
    let plan = plan_unit(&repo, &ids[3..].to_vec(), true);
    assert_eq!(plan.writes.len(), 2);
    assert_eq!(plan.failure, None);
    let plan = plan_unit(&repo, &vec![s("unknown")], false);
    assert!(plan.writes.is_empty());
    assert_eq!(plan.failure, Some(Error::ProtocolFailure));
}

fn sizes(units: &Vec<Vec<String>>) -> Vec<usize> {
    units.iter().map(|u| u.len()).collect()
}

#[test]
fn each_strategy_has_its_plan() {
    let ids: Vec<String> = (0..1203).map(|i| format!("{:040x}", i)).collect();
    let plan = plan_transfer(&ids, &Strategy::Sequential);
    assert_eq!((sizes(&plan.units), plan.atomic, plan.workers), (vec![1203], false, 1));
    let plan = plan_transfer(&ids, &Strategy::Chunked);
    assert_eq!((sizes(&plan.units), plan.atomic, plan.workers), (vec![500, 500, 203], true, 10));
    let plan = plan_transfer(&ids, &Strategy::FixedWorkers(4));
    assert_eq!((sizes(&plan.units), plan.atomic, plan.workers), (vec![301, 301, 301, 300], false, 4));
    let plan = plan_transfer(&ids, &Strategy::FixedWorkers(0));
    assert_eq!((sizes(&plan.units), plan.atomic, plan.workers), (vec![1203], false, 1));
    let plan = plan_transfer(&ids, &Strategy::Concurrent);
    assert_eq!((plan.units.len(), plan.atomic, plan.workers), (1203, false, 10));
    assert_eq!(plan.units.concat(), ids);
    for strategy in [Strategy::Sequential, Strategy::Chunked, Strategy::FixedWorkers(3), Strategy::Concurrent] {
        assert!(plan_transfer(&Vec::new(), &strategy).units.is_empty());
    }
}

#[test]
fn the_sequential_plan_is_one_run_that_stops_at_the_first_failure() {
    let repo = corrupt_repo();
    let mut updater = RepositoryUpdater::new(GitSqlClient::new(s("db"))).unwrap();
    updater.process_objects(&repo).unwrap();
    let report = updater.update_objects_by(&repo, &Strategy::Sequential).unwrap();
    assert_eq!(sizes(&report.units), vec![5]);
    assert_eq!(report.failures.len(), 1);
    assert_eq!(report.failures[0].unit, 0);
    assert!(matches!(report.failures[0].error, Error::HashMismatch { .. }));
    assert_eq!(stored(updater.client(), &repo), vec![true, true, false, false, false]);
    let mut other = RepositoryUpdater::new(GitSqlClient::new(s("db"))).unwrap();
    other.process_objects(&repo).unwrap();
    assert!(other.update_objects(&repo).is_err());
    assert_eq!(stored(other.client(), &repo), stored(updater.client(), &repo));
}

#[test]
fn a_failing_chunk_lands_not_at_all_and_the_others_do() {
    let mut repo = many_objects(1203);
    repo.objects[700].data = b"tampered".to_vec();
    let mut updater = RepositoryUpdater::new(GitSqlClient::new(s("db"))).unwrap();
    updater.process_objects(&repo).unwrap();
    let report = updater.update_objects_by(&repo, &Strategy::Chunked).unwrap();
    assert_eq!(report.failures.len(), 1);
    assert_eq!(report.failures[0].unit, 1);
    let landed = stored(updater.client(), &repo);
    assert!(landed[..500].iter().all(|l| *l));
    assert!(landed[500..1000].iter().all(|l| !*l));
    assert!(landed[1000..].iter().all(|l| *l));
}
