use game_broker::roles::{resolve_role, Credential, Role, UserEntry};

fn users() -> Vec<UserEntry> {
    vec![
        UserEntry {
            name: String::from("admin"),
            password: String::from("ag3nt"),
            role: Role::Admin,
        },
        UserEntry {
            name: String::from("alice"),
            password: String::from("wonder"),
            role: Role::User,
        },
    ]
}

fn cred(name: &str, password: &str) -> Credential {
    Credential {
        name: String::from(name),
        password: String::from(password),
    }
}

#[test]
fn matching_credential_grants_configured_role() {
    assert_eq!(resolve_role(&users(), Some(cred("admin", "ag3nt"))), Role::Admin);
    assert_eq!(resolve_role(&users(), Some(cred("alice", "wonder"))), Role::User);
}

#[test]
fn wrong_secret_resolves_to_guest() {
    assert_eq!(resolve_role(&users(), Some(cred("admin", "wrong"))), Role::Guest);
    assert_eq!(resolve_role(&users(), Some(cred("admin", ""))), Role::Guest);
}

#[test]
fn no_credential_resolves_to_guest() {
    assert_eq!(resolve_role(&users(), None), Role::Guest);
}

#[test]
fn unknown_name_resolves_to_guest() {
    assert_eq!(resolve_role(&users(), Some(cred("mallory", "ag3nt"))), Role::Guest);
    assert_eq!(resolve_role(&Vec::new(), Some(cred("admin", "ag3nt"))), Role::Guest);
}

#[test]
fn first_user_bearing_the_name_decides() {
    // Two entries share a name; the scan stops at the first, so the second
    // entry's secret cannot grant its role.
    let duplicated = vec![
        UserEntry {
            name: String::from("bob"),
            password: String::from("one"),
            role: Role::User,
        },
        UserEntry {
            name: String::from("bob"),
            password: String::from("two"),
            role: Role::Admin,
        },
    ];
    assert_eq!(resolve_role(&duplicated, Some(cred("bob", "one"))), Role::User);
    assert_eq!(resolve_role(&duplicated, Some(cred("bob", "two"))), Role::Guest);
}

#[test]
fn levels_are_ordered_guest_user_admin() {
    assert!(Role::Admin.at_least(Role::Guest));
    assert!(Role::Admin.at_least(Role::User));
    assert!(Role::Admin.at_least(Role::Admin));
    assert!(Role::User.at_least(Role::Guest));
    assert!(Role::User.at_least(Role::User));
    assert!(!Role::User.at_least(Role::Admin));
    assert!(Role::Guest.at_least(Role::Guest));
    assert!(!Role::Guest.at_least(Role::User));
    assert!(!Role::Guest.at_least(Role::Admin));
}

#[test]
fn default_role_is_user() {
    assert_eq!(Role::default(), Role::User);
}
