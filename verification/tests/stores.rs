use crate_registry::models::{Role, RoleCode, User};
use crate_registry::repository::{RoleDirectory, UserDirectory};
use crate_registry::session::{SessionLookup, SessionStore};

fn user(id: i32, username: &str) -> User {
    User {
        id,
        username: String::from(username),
        password: String::from("$argon2$stored-hash"),
        created_at: 0,
    }
}

#[test]
fn store_reports_found_absent_and_fault() {
    let mut store = SessionStore::new();
    store.insert(String::from("sessions/abc123"), 42);
    assert_eq!(store.get("sessions/abc123"), SessionLookup::Found(42));
    assert_eq!(store.get("sessions/ghost"), SessionLookup::Absent);
    store.set_connected(false);
    assert_eq!(store.get("sessions/abc123"), SessionLookup::Fault);
    store.set_connected(true);
    assert_eq!(store.get("sessions/abc123"), SessionLookup::Found(42));
}

#[test]
fn newer_binding_shadows_older() {
    let mut store = SessionStore::new();
    store.insert(String::from("sessions/abc123"), 42);
    store.insert(String::from("sessions/abc123"), 7);
    assert_eq!(store.get("sessions/abc123"), SessionLookup::Found(7));
}

#[test]
fn user_directory_finds_by_id() {
    let mut users = UserDirectory::new();
    users.insert(user(1, "alice"));
    users.insert(user(2, "bob"));
    let found = users.find(2).expect("user 2 exists");
    assert_eq!(found.id, 2);
    assert_eq!(found.username, "bob");
    assert!(users.find(3).is_none());
}

#[test]
fn role_directory_returns_only_the_users_roles_in_order() {
    let mut roles = RoleDirectory::new();
    roles.insert(1, Role { id: 10, code: RoleCode::Admin });
    roles.insert(2, Role { id: 11, code: RoleCode::Viewer });
    roles.insert(1, Role { id: 12, code: RoleCode::Editor });
    let held = roles.find_by_user(1).expect("directory is reachable");
    assert_eq!(held.len(), 2);
    assert_eq!(held[0].id, 10);
    assert_eq!(held[0].code, RoleCode::Admin);
    assert_eq!(held[1].id, 12);
    assert_eq!(held[1].code, RoleCode::Editor);
    assert_eq!(roles.find_by_user(3).expect("reachable").len(), 0);
}

#[test]
fn role_directory_fault_is_not_an_empty_set() {
    let mut roles = RoleDirectory::new();
    roles.insert(1, Role { id: 10, code: RoleCode::Admin });
    roles.set_connected(false);
    assert!(roles.find_by_user(1).is_err());
}
