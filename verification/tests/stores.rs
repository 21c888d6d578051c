use usdb_runes::intents::IntentStore;
use usdb_runes::key_cache::{paths_eq, PublicKeyCache};

#[test]
fn cache_reads_back_what_was_written() {
    let mut c = PublicKeyCache::new();
    let p1 = vec![vec![0x80, 0, 0, 84], vec![0, 0, 0, 1]];
    let p2 = vec![vec![0x80, 0, 0, 84], vec![0, 0, 0, 2]];
    assert_eq!(c.get(&p1), None);
    c.insert(p1.clone(), vec![2, 3, 4]);
    assert_eq!(c.get(&p1), Some(vec![2, 3, 4]));
    assert_eq!(c.get(&p2), None);
    c.insert(p2.clone(), vec![5]);
    c.insert(p1.clone(), vec![9]);
    assert_eq!(c.get(&p1), Some(vec![9]));
    assert_eq!(c.get(&p2), Some(vec![5]));
}

#[test]
fn path_equality() {
    assert!(paths_eq(&vec![vec![1, 2], vec![]], &vec![vec![1, 2], vec![]]));
    assert!(!paths_eq(&vec![vec![1, 2]], &vec![vec![1], vec![2]]));
    assert!(!paths_eq(&vec![vec![1, 2]], &vec![vec![1, 3]]));
}

#[test]
fn intents_by_principal() {
    let mut s = IntentStore::new();
    assert_eq!(s.get_user_intent(b"alice"), None);
    s.store_intent(b"alice", "bc1qa".to_string(), 10);
    s.store_intent(b"bob", "bc1qb".to_string(), 20);
    s.store_intent(b"alice", "bc1qc".to_string(), 30);
    assert_eq!(s.get_user_intent(b"alice"), Some(("bc1qc".to_string(), 30)));
    assert_eq!(s.get_user_intent(b"bob"), Some(("bc1qb".to_string(), 20)));
    assert_eq!(s.get_user_intent(b"carol"), None);
}
