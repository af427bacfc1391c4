use clinic_records::accounts::{Account, AccountPatch};
use clinic_records::store::{RecordStore, StoreError};

fn account(id: u32, name: &str) -> Account {
    Account {
        id,
        username: name.to_string(),
        email: String::new(),
        phone_no: String::new(),
        password: String::new(),
    }
}

fn rename(to: &str) -> AccountPatch {
    AccountPatch { username: Some(to.to_string()), email: None, phone_no: None, password: None }
}

#[test]
fn new_store_is_empty() {
    let store: RecordStore<Account> = RecordStore::new();
    assert_eq!(store.len(), 0);
    assert!(store.list().is_empty());
    assert!(!store.contains(0));
    assert!(store.get(0).is_none());
}

#[test]
fn insert_grows_the_store_by_one() {
    let mut store = RecordStore::new();
    assert_eq!(store.insert(account(1, "a")), Ok(()));
    assert_eq!(store.len(), 1);
    assert_eq!(store.insert(account(2, "b")), Ok(()));
    assert_eq!(store.len(), 2);
    assert!(store.contains(1));
    assert!(store.contains(2));
    assert!(!store.contains(3));
    assert_eq!(store.get(2), Some(account(2, "b")));
}

#[test]
fn insert_of_a_taken_key_is_refused() {
    let mut store = RecordStore::new();
    store.insert(account(1, "a")).unwrap();
    assert_eq!(store.insert(account(1, "b")), Err(StoreError::AlreadyExists));
    assert_eq!(store.len(), 1);
    assert_eq!(store.get(1), Some(account(1, "a")));
}

#[test]
fn update_of_an_absent_key_is_refused() {
    let mut store = RecordStore::new();
    store.insert(account(1, "a")).unwrap();
    assert_eq!(store.update(2, rename("z")), Err(StoreError::NotFound));
    assert_eq!(store.get(1), Some(account(1, "a")));
    assert_eq!(store.len(), 1);
}

#[test]
fn update_changes_the_one_record() {
    let mut store = RecordStore::new();
    store.insert(account(1, "a")).unwrap();
    store.insert(account(2, "b")).unwrap();
    assert_eq!(store.update(1, rename("z")), Ok(()));
    assert_eq!(store.get(1), Some(account(1, "z")));
    assert_eq!(store.get(2), Some(account(2, "b")));
    assert_eq!(store.len(), 2);
}

#[test]
fn remove_hands_the_record_out() {
    let mut store = RecordStore::new();
    store.insert(account(1, "a")).unwrap();
    store.insert(account(2, "b")).unwrap();
    assert_eq!(store.remove(1), Ok(account(1, "a")));
    assert_eq!(store.len(), 1);
    assert!(!store.contains(1));
    assert_eq!(store.remove(1), Err(StoreError::NotFound));
    assert_eq!(store.len(), 1);
    assert_eq!(store.insert(account(1, "again")), Ok(()));
    assert_eq!(store.get(1), Some(account(1, "again")));
}

#[test]
fn list_holds_what_lookups_find() {
    let mut store = RecordStore::new();
    for id in 0u32..50 {
        store.insert(account(id * 7, "n")).unwrap();
    }
    store.remove(14).unwrap();
    store.update(21, rename("m")).unwrap();
    let mut listed = store.list();
    assert_eq!(listed.len(), store.len());
    assert_eq!(listed.len(), 49);
    listed.sort_by_key(|a| a.id);
    for pair in listed.windows(2) {
        assert!(pair[0].id < pair[1].id);
    }
    for a in &listed {
        assert_eq!(store.get(a.id).as_ref(), Some(a));
    }
    assert!(listed.iter().all(|a| a.id != 14));
    assert_eq!(listed.iter().find(|a| a.id == 21).unwrap().username, "m");
}
