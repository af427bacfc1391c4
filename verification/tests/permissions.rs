use clinic_records::patch::set_if_present;
use clinic_records::permission::{Permission, PermissionSet, Role};
use clinic_records::text::{decimal_string, join3};

fn every_permission() -> Vec<Permission> {
    vec![
        Permission::ViewPatient,
        Permission::AddPatient,
        Permission::EditPatient,
        Permission::DeletePatient,
        Permission::ViewDoctor,
        Permission::AddDoctor,
    ]
}

#[test]
fn new_set_is_empty() {
    let set = PermissionSet::new();
    for p in every_permission() {
        assert!(!set.contains(p));
    }
    assert!(set.to_vec().is_empty());
}

#[test]
fn insert_reports_whether_the_member_is_new() {
    let mut set = PermissionSet::new();
    for p in every_permission() {
        assert!(set.insert(p));
        assert!(set.contains(p));
        assert!(!set.insert(p));
        assert!(set.contains(p));
    }
    assert_eq!(set.to_vec(), every_permission());
}

#[test]
fn insert_leaves_the_other_members_alone() {
    let mut set = PermissionSet::new();
    set.insert(Permission::ViewDoctor);
    assert_eq!(set.to_vec(), vec![Permission::ViewDoctor]);
    set.insert(Permission::AddPatient);
    assert_eq!(set.to_vec(), vec![Permission::AddPatient, Permission::ViewDoctor]);
}

#[test]
fn role_table() {
    assert_eq!(PermissionSet::for_role(Role::Admin).to_vec(), every_permission());
    assert_eq!(
        PermissionSet::for_role(Role::Doctor).to_vec(),
        vec![
            Permission::ViewPatient,
            Permission::AddPatient,
            Permission::EditPatient,
            Permission::ViewDoctor,
        ]
    );
    assert_eq!(PermissionSet::for_role(Role::Nurse).to_vec(), vec![Permission::ViewPatient]);
}

#[test]
fn extend_is_union() {
    let mut left = PermissionSet::from_slice(&[Permission::AddDoctor, Permission::ViewPatient]);
    let right = PermissionSet::from_slice(&[Permission::ViewPatient, Permission::EditPatient]);
    left.extend(&right);
    assert_eq!(
        left.to_vec(),
        vec![Permission::ViewPatient, Permission::EditPatient, Permission::AddDoctor]
    );
    let before = left;
    left.extend(&PermissionSet::new());
    assert_eq!(left, before);
    left.extend(&before);
    assert_eq!(left, before);
}

#[test]
fn clear_empties() {
    let mut set = PermissionSet::for_role(Role::Admin);
    set.clear();
    assert_eq!(set, PermissionSet::new());
}

#[test]
fn from_slice_ignores_order_and_repeats() {
    let a = PermissionSet::from_slice(&[
        Permission::AddDoctor,
        Permission::ViewPatient,
        Permission::AddDoctor,
    ]);
    let b = PermissionSet::from_slice(&[Permission::ViewPatient, Permission::AddDoctor]);
    assert_eq!(a, b);
    assert_eq!(a.to_vec(), vec![Permission::ViewPatient, Permission::AddDoctor]);
    assert_eq!(PermissionSet::from_slice(&[]), PermissionSet::new());
}

#[test]
fn decimal_string_renders_numbers() {
    assert_eq!(decimal_string(0), "0");
    assert_eq!(decimal_string(7), "7");
    assert_eq!(decimal_string(9), "9");
    assert_eq!(decimal_string(10), "10");
    assert_eq!(decimal_string(407), "407");
    assert_eq!(decimal_string(1234567890), "1234567890");
    assert_eq!(decimal_string(u32::MAX), "4294967295");
    for n in [1u32, 19, 99, 100, 101, 65535, 1000000] {
        assert_eq!(decimal_string(n), n.to_string());
    }
}

#[test]
fn join3_concatenates_in_order() {
    assert_eq!(join3("a", "b", "c"), "abc");
    assert_eq!(join3("", "", ""), "");
    assert_eq!(join3("left ", "", " right"), "left  right");
}

#[test]
fn set_if_present_overwrites_or_keeps() {
    let mut field = "old".to_string();
    set_if_present(&mut field, None);
    assert_eq!(field, "old");
    set_if_present(&mut field, Some("new".to_string()));
    assert_eq!(field, "new");
    set_if_present(&mut field, Some(String::new()));
    assert_eq!(field, "");
}
