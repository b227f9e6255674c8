use presence_relay::registry::{ClaimOutcome, ClientRegistry, RegEntry};

#[test]
fn claim_accepts_free_name() {
    let mut reg = ClientRegistry::new();
    assert_eq!(reg.try_claim(1, "alice".to_string()), ClaimOutcome::Accepted);
    assert_eq!(reg.len(), 1);
    assert_eq!(reg.snapshot(), vec![RegEntry { id: 1, name: "alice".to_string() }]);
}

#[test]
fn claim_refuses_name_held_by_other() {
    let mut reg = ClientRegistry::new();
    assert_eq!(reg.try_claim(1, "alice".to_string()), ClaimOutcome::Accepted);
    assert_eq!(reg.try_claim(2, "alice".to_string()), ClaimOutcome::NameUnavailable);
    assert_eq!(reg.len(), 1);
    assert_eq!(reg.try_claim(2, "bob".to_string()), ClaimOutcome::Accepted);
    assert_eq!(reg.len(), 2);
}

#[test]
fn claim_own_name_is_idempotent_success() {
    let mut reg = ClientRegistry::new();
    assert_eq!(reg.try_claim(1, "alice".to_string()), ClaimOutcome::Accepted);
    assert_eq!(reg.try_claim(1, "alice".to_string()), ClaimOutcome::Accepted);
    assert_eq!(reg.len(), 1);
    assert_eq!(reg.snapshot(), vec![RegEntry { id: 1, name: "alice".to_string() }]);
}

#[test]
fn claim_overwrites_own_previous_name() {
    let mut reg = ClientRegistry::new();
    assert_eq!(reg.try_claim(1, "alice".to_string()), ClaimOutcome::Accepted);
    assert_eq!(reg.try_claim(1, "alicia".to_string()), ClaimOutcome::Accepted);
    assert_eq!(reg.len(), 1);
    assert_eq!(reg.snapshot(), vec![RegEntry { id: 1, name: "alicia".to_string() }]);
    // the old name is free again
    assert_eq!(reg.try_claim(2, "alice".to_string()), ClaimOutcome::Accepted);
}

#[test]
fn at_most_one_holder_per_name() {
    // Any interleaving of claims of one name has exactly one winner.
    let mut reg = ClientRegistry::new();
    let outcomes = vec![
        reg.try_claim(1, "ada".to_string()),
        reg.try_claim(2, "ada".to_string()),
        reg.try_claim(3, "ada".to_string()),
    ];
    let winners = outcomes.iter().filter(|o| **o == ClaimOutcome::Accepted).count();
    assert_eq!(winners, 1);
    let snap = reg.snapshot();
    assert_eq!(snap.iter().filter(|e| e.name == "ada").count(), 1);
}

#[test]
fn release_removes_and_is_idempotent() {
    let mut reg = ClientRegistry::new();
    assert_eq!(reg.try_claim(1, "alice".to_string()), ClaimOutcome::Accepted);
    assert_eq!(reg.try_claim(2, "bob".to_string()), ClaimOutcome::Accepted);
    reg.release(1);
    assert_eq!(reg.snapshot(), vec![RegEntry { id: 2, name: "bob".to_string() }]);
    reg.release(1);
    assert_eq!(reg.len(), 1);
    // the released name is free again
    assert_eq!(reg.try_claim(3, "alice".to_string()), ClaimOutcome::Accepted);
}

#[test]
fn snapshot_keeps_registration_order() {
    let mut reg = ClientRegistry::new();
    assert_eq!(reg.try_claim(5, "eve".to_string()), ClaimOutcome::Accepted);
    assert_eq!(reg.try_claim(3, "carol".to_string()), ClaimOutcome::Accepted);
    assert_eq!(reg.try_claim(4, "dan".to_string()), ClaimOutcome::Accepted);
    let snap = reg.snapshot();
    let names: Vec<String> = snap.iter().map(|e| e.name.clone()).collect();
    assert_eq!(names, vec!["eve".to_string(), "carol".to_string(), "dan".to_string()]);
}
