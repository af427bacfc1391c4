use clinic_records::accounts::{
    create_account, get_account, list_accounts, update_account, Account, AccountPatch, AppState,
};
use clinic_records::reply::Status;

fn account(id: u32, name: &str) -> Account {
    Account {
        id,
        username: name.to_string(),
        email: format!("{}@example.org", name),
        phone_no: "555-0199".to_string(),
        password: "hunter2".to_string(),
    }
}

fn untouched() -> AccountPatch {
    AccountPatch { username: None, email: None, phone_no: None, password: None }
}

#[test]
fn create_account_stores_the_record_as_given() {
    let mut state = AppState::new();
    let reply = create_account(account(3, "eve"), &mut state);
    assert_eq!(reply, (Status::Created, "User 'eve' created successfully!".to_string()));
    assert_eq!(get_account(3, &state), Some(account(3, "eve")));
}

#[test]
fn create_account_twice_conflicts() {
    let mut state = AppState::new();
    create_account(account(3, "eve"), &mut state);
    let reply = create_account(account(3, "other"), &mut state);
    assert_eq!(reply, (Status::Conflict, "User with ID 3 already exists.".to_string()));
    assert_eq!(get_account(3, &state), Some(account(3, "eve")));
    assert_eq!(list_accounts(&state).len(), 1);
}

#[test]
fn update_account_overwrites_only_the_named_fields() {
    let mut state = AppState::new();
    create_account(account(3, "eve"), &mut state);
    create_account(account(4, "fay"), &mut state);
    let patch = AccountPatch {
        email: Some("new@example.org".to_string()),
        password: Some(String::new()),
        ..untouched()
    };
    let reply = update_account(3, patch, &mut state);
    assert_eq!(reply, (Status::Success, "User 3 updated successfully.".to_string()));
    assert_eq!(
        get_account(3, &state),
        Some(Account {
            id: 3,
            username: "eve".to_string(),
            email: "new@example.org".to_string(),
            phone_no: "555-0199".to_string(),
            password: String::new(),
        })
    );
    assert_eq!(get_account(4, &state), Some(account(4, "fay")));
}

#[test]
fn update_account_with_every_field() {
    let mut state = AppState::new();
    create_account(account(1, "eve"), &mut state);
    let patch = AccountPatch {
        username: Some("u".to_string()),
        email: Some("e".to_string()),
        phone_no: Some("p".to_string()),
        password: Some("w".to_string()),
    };
    update_account(1, patch, &mut state);
    assert_eq!(
        get_account(1, &state),
        Some(Account {
            id: 1,
            username: "u".to_string(),
            email: "e".to_string(),
            phone_no: "p".to_string(),
            password: "w".to_string(),
        })
    );
}

#[test]
fn update_account_without_fields_changes_nothing() {
    let mut state = AppState::new();
    create_account(account(1, "eve"), &mut state);
    assert_eq!(update_account(1, untouched(), &mut state).0, Status::Success);
    assert_eq!(get_account(1, &state), Some(account(1, "eve")));
}

#[test]
fn update_account_of_an_absent_id_is_not_found() {
    let mut state = AppState::new();
    create_account(account(1, "eve"), &mut state);
    let patch = AccountPatch { username: Some("x".to_string()), ..untouched() };
    let reply = update_account(2, patch, &mut state);
    assert_eq!(reply, (Status::NotFound, "User with ID 2 not found.".to_string()));
    assert!(get_account(2, &state).is_none());
    assert_eq!(get_account(1, &state), Some(account(1, "eve")));
}

#[test]
fn list_accounts_holds_every_account_once() {
    let mut state = AppState::new();
    assert!(list_accounts(&state).is_empty());
    for id in [10u32, 20, 10, 30] {
        create_account(account(id, "n"), &mut state);
    }
    let mut ids: Vec<u32> = list_accounts(&state).iter().map(|a| a.id).collect();
    ids.sort();
    assert_eq!(ids, vec![10, 20, 30]);
}
