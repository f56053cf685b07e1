use qotd_core::repo::CapacityExceeded;
use qotd_core::repo::ContentRepository;
use qotd_core::repo::CuratedItem;
use qotd_core::repo::DeletionOutcome;
use qotd_core::repo::EmptyPoolError;
use qotd_core::CUSTOM_CAPACITY;

fn empty_questions() -> ContentRepository<String> {
    ContentRepository::new(Vec::new())
}

#[test]
fn curated_selection_is_among_active_entries() {
    let mut curated = Vec::new();
    curated.push(CuratedItem { id: 1, body: String::from("one"), active: true });
    curated.push(CuratedItem { id: 2, body: String::from("two"), active: false });
    curated.push(CuratedItem { id: 3, body: String::from("three"), active: true });
    let repo = ContentRepository::new(curated);
    assert_eq!(repo.random_curated(0), Ok(&String::from("one")));
    assert_eq!(repo.random_curated(1), Ok(&String::from("three")));
    assert_eq!(repo.random_curated(2), Ok(&String::from("one")));
}

#[test]
fn curated_empty_pool_is_an_error() {
    let repo = empty_questions();
    assert_eq!(repo.random_curated(5), Err(EmptyPoolError));
}

#[test]
fn curated_all_inactive_is_an_error() {
    let mut curated = Vec::new();
    curated.push(CuratedItem { id: 1, body: String::from("one"), active: false });
    let repo = ContentRepository::new(curated);
    assert_eq!(repo.random_curated(0), Err(EmptyPoolError));
}

#[test]
fn submit_assigns_increasing_ids() {
    let mut repo = empty_questions();
    assert_eq!(repo.submit_custom(1, String::from("a")), Ok(1));
    assert_eq!(repo.submit_custom(1, String::from("b")), Ok(2));
    assert_eq!(repo.submit_custom(9, String::from("c")), Ok(3));
    assert_eq!(repo.count_custom(1), 2);
    assert_eq!(repo.count_custom(9), 1);
}

#[test]
fn submit_then_get_round_trip() {
    let mut repo = empty_questions();
    let id = repo.submit_custom(4, String::from("what is your quest?")).unwrap();
    assert_eq!(repo.get_custom_by_id(4, id), Some(&String::from("what is your quest?")));
}

#[test]
fn get_absent_id_is_none() {
    let repo = empty_questions();
    assert_eq!(repo.get_custom_by_id(4, 1), None);
}

#[test]
fn foreign_entries_are_invisible() {
    let mut repo = empty_questions();
    let id = repo.submit_custom(1, String::from("a's question")).unwrap();
    assert_eq!(repo.get_custom_by_id(2, id), None);
    assert_eq!(repo.random_custom(2, 0), None);
    assert!(repo.list_custom(2).is_empty());
    assert_eq!(repo.count_custom(2), 0);
}

#[test]
fn foreign_delete_leaves_entry_intact() {
    let mut repo = empty_questions();
    let id = repo.submit_custom(1, String::from("keep me")).unwrap();
    assert_eq!(repo.delete_custom(2, id), DeletionOutcome::NotFoundOrNotOwned);
    assert_eq!(repo.get_custom_by_id(1, id), Some(&String::from("keep me")));
    assert_eq!(repo.count_custom(1), 1);
}

#[test]
fn delete_absent_id_reports_not_found() {
    let mut repo = empty_questions();
    assert_eq!(repo.delete_custom(1, 77), DeletionOutcome::NotFoundOrNotOwned);
}

#[test]
fn list_delete_list_scenario() {
    let mut repo = empty_questions();
    assert_eq!(repo.submit_custom(1, String::from("q1")), Ok(1));
    assert_eq!(repo.submit_custom(1, String::from("q2")), Ok(2));
    assert_eq!(repo.submit_custom(1, String::from("q3")), Ok(3));

    let listed: Vec<u64> = repo.list_custom(1).iter().map(|e| e.0).collect();
    assert_eq!(listed, vec![1, 2, 3]);

    assert_eq!(repo.delete_custom(1, 2), DeletionOutcome::Deleted);

    let listed: Vec<u64> = repo.list_custom(1).iter().map(|e| e.0).collect();
    assert_eq!(listed, vec![1, 3]);
}

#[test]
fn list_is_ordered_and_scoped() {
    let mut repo = empty_questions();
    repo.submit_custom(1, String::from("a1")).unwrap();
    repo.submit_custom(2, String::from("b1")).unwrap();
    repo.submit_custom(1, String::from("a2")).unwrap();
    let entries = repo.list_custom(1);
    assert_eq!(entries.len(), 2);
    assert_eq!(entries[0].0, 1);
    assert_eq!(entries[0].1.as_str(), "a1");
    assert_eq!(entries[1].0, 3);
    assert_eq!(entries[1].1.as_str(), "a2");
}

#[test]
fn random_custom_on_empty_pool_is_none() {
    let repo = empty_questions();
    assert_eq!(repo.random_custom(3, 12345), None);
}

#[test]
fn random_custom_draws_own_entries() {
    let mut repo = empty_questions();
    repo.submit_custom(1, String::from("mine")).unwrap();
    repo.submit_custom(2, String::from("theirs")).unwrap();
    for entropy in 0..5u64 {
        assert_eq!(repo.random_custom(1, entropy), Some(&String::from("mine")));
    }
}

#[test]
fn capacity_limit_is_enforced() {
    let mut repo = empty_questions();
    for n in 0..CUSTOM_CAPACITY {
        let body = format!("question {}", n);
        assert!(repo.submit_custom(8, body).is_ok());
    }
    assert_eq!(repo.count_custom(8), CUSTOM_CAPACITY);
    assert_eq!(repo.submit_custom(8, String::from("one too many")), Err(CapacityExceeded));
    assert_eq!(repo.count_custom(8), CUSTOM_CAPACITY);
}

#[test]
fn capacity_is_per_community() {
    let mut repo = empty_questions();
    for n in 0..CUSTOM_CAPACITY {
        let body = format!("question {}", n);
        assert!(repo.submit_custom(8, body).is_ok());
    }
    assert!(repo.submit_custom(9, String::from("fresh community")).is_ok());
    assert_eq!(repo.count_custom(9), 1);
}

#[test]
fn delete_frees_capacity() {
    let mut repo = empty_questions();
    let mut last = 0;
    for n in 0..CUSTOM_CAPACITY {
        let body = format!("question {}", n);
        last = repo.submit_custom(8, body).unwrap();
    }
    assert_eq!(repo.submit_custom(8, String::from("no room")), Err(CapacityExceeded));
    assert_eq!(repo.delete_custom(8, last), DeletionOutcome::Deleted);
    assert!(repo.submit_custom(8, String::from("room again")).is_ok());
}
