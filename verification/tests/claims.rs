use agent_client::claims::{ClaimKey, VisitClaims, GUEST_CLAIM_TTL_MS, VISIT_DWELL_MS};

#[test]
fn first_claimant_holds_a_visit_claim() {
    let mut c = VisitClaims::default();
    let now = 1_000;
    assert!(c.try_claim(ClaimKey::Bed(52), "miriel", VISIT_DWELL_MS, now));
    assert!(!c.try_claim(ClaimKey::Bed(52), "cocoly", VISIT_DWELL_MS, now));
    assert!(c.try_claim(ClaimKey::Bed(52), "miriel", VISIT_DWELL_MS, now));
    assert!(c.try_claim(ClaimKey::Bed(53), "cocoly", VISIT_DWELL_MS, now));
}

#[test]
fn a_hold_reads_back_until_its_deadline_then_is_free_to_take() {
    let mut c = VisitClaims::new();
    let key = ClaimKey::Guest(8);
    assert!(c.try_claim(key, "miriel", GUEST_CLAIM_TTL_MS, 0));
    assert_eq!(c.holder(key, 0), Some("miriel".to_string()));
    assert_eq!(c.holder(key, GUEST_CLAIM_TTL_MS - 1), Some("miriel".to_string()));
    assert_eq!(c.holder(key, GUEST_CLAIM_TTL_MS), None, "a lapsed hold reads free");
    assert!(!c.try_claim(key, "cocoly", 10, GUEST_CLAIM_TTL_MS - 1));
    assert!(c.try_claim(key, "cocoly", 10, GUEST_CLAIM_TTL_MS));
    assert_eq!(c.holder(key, GUEST_CLAIM_TTL_MS), Some("cocoly".to_string()));
}

#[test]
fn a_repeat_claim_refreshes_the_hold() {
    let mut c = VisitClaims::new();
    let key = ClaimKey::Meal(3);
    assert!(c.try_claim(key, "miriel", 100, 0));
    assert!(c.try_claim(key, "miriel", 100, 90));
    assert_eq!(c.holder(key, 150), Some("miriel".to_string()));
    assert_eq!(c.holder(key, 190), None);
}

#[test]
fn only_the_holder_can_release_a_claim() {
    let mut c = VisitClaims::new();
    let key = ClaimKey::Guest(4);
    assert!(c.try_claim(key, "miriel", 1_000, 0));
    c.release(key, "cocoly");
    assert_eq!(c.holder(key, 10), Some("miriel".to_string()));
    c.release(key, "miriel");
    assert_eq!(c.holder(key, 10), None);
    assert!(c.try_claim(key, "cocoly", 1_000, 10));
    assert_eq!(c.holder(ClaimKey::Bed(4), 10), None, "keys of different kinds are apart");
}
