use osu_leaderboard::registry::{is_authorized, register_decision, RegisterOutcome, Registry};

const GUILD: u64 = 42;

#[test]
fn new_registry_lists_nothing() {
    let reg = Registry::new();
    assert_eq!(reg.list(GUILD).len(), 0);
}

#[test]
fn ensure_registry_is_idempotent() {
    let mut reg = Registry::new();
    reg.ensure_registry(GUILD);
    reg.ensure_registry(GUILD);
    assert_eq!(reg.list(GUILD).len(), 0);
}

#[test]
fn register_and_list_in_insertion_order() {
    let mut reg = Registry::new();
    let ids = ["peppy", "cookiezi", "whitecat"];
    for id in ids {
        let outcome = reg.register(GUILD, id.to_string(), true);
        assert_eq!(outcome, RegisterOutcome::Registered);
    }
    let listed = reg.list(GUILD);
    assert_eq!(listed, vec!["peppy", "cookiezi", "whitecat"]);
}

#[test]
fn duplicate_registration_rejected_and_size_unchanged() {
    let mut reg = Registry::new();
    assert_eq!(reg.register(GUILD, "peppy".to_string(), true), RegisterOutcome::Registered);
    assert_eq!(
        reg.register(GUILD, "peppy".to_string(), true),
        RegisterOutcome::AlreadyRegistered
    );
    assert_eq!(reg.list(GUILD).len(), 1);
}

#[test]
fn unknown_user_rejected_and_not_listed() {
    let mut reg = Registry::new();
    assert_eq!(
        reg.register(GUILD, "nobody".to_string(), false),
        RegisterOutcome::UnknownExternalUser
    );
    let listed = reg.list(GUILD);
    assert!(!listed.iter().any(|id| id == "nobody"));
    assert_eq!(listed.len(), 0);
}

#[test]
fn two_registrations_of_same_id_exactly_one_succeeds() {
    // The registry serializes registration attempts: in whichever order two
    // attempts for the same identifier land, one succeeds and one is told
    // the identifier is already registered.
    let mut reg = Registry::new();
    let first = reg.register(GUILD, "u1".to_string(), true);
    let second = reg.register(GUILD, "u1".to_string(), true);
    assert_eq!(first, RegisterOutcome::Registered);
    assert_eq!(second, RegisterOutcome::AlreadyRegistered);
    assert_eq!(reg.list(GUILD).len(), 1);
}

#[test]
fn communities_are_independent() {
    let mut reg = Registry::new();
    assert_eq!(reg.register(1, "peppy".to_string(), true), RegisterOutcome::Registered);
    assert_eq!(reg.register(2, "peppy".to_string(), true), RegisterOutcome::Registered);
    assert_eq!(reg.list(1), vec!["peppy"]);
    assert_eq!(reg.list(2), vec!["peppy"]);
    assert_eq!(reg.list(3).len(), 0);
}

#[test]
fn duplicate_check_comes_before_validation() {
    let mut reg = Registry::new();
    assert_eq!(reg.register(GUILD, "peppy".to_string(), true), RegisterOutcome::Registered);
    // Even if the service no longer recognises the identifier, the duplicate
    // is reported first.
    assert_eq!(
        reg.register(GUILD, "peppy".to_string(), false),
        RegisterOutcome::AlreadyRegistered
    );
}

#[test]
fn store_decision_agrees_with_register() {
    assert_eq!(register_decision(true, true), RegisterOutcome::AlreadyRegistered);
    assert_eq!(register_decision(true, false), RegisterOutcome::AlreadyRegistered);
    assert_eq!(register_decision(false, false), RegisterOutcome::UnknownExternalUser);
    assert_eq!(register_decision(false, true), RegisterOutcome::Registered);
}

#[test]
fn empty_allow_list_admits_everyone() {
    assert!(is_authorized(&Vec::new(), 7));
}

#[test]
fn non_empty_allow_list_restricts() {
    let allow = vec![10, 20];
    assert!(is_authorized(&allow, 10));
    assert!(is_authorized(&allow, 20));
    assert!(!is_authorized(&allow, 30));
}
