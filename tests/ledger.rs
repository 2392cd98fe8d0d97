use delphi::{AccountId, Delphi, Error};

fn acct(n: u8) -> AccountId {
    AccountId::new([n; 32])
}

fn b(s: &str) -> Vec<u8> {
    s.as_bytes().to_vec()
}

fn alice() -> AccountId {
    acct(1)
}

fn bob() -> AccountId {
    acct(2)
}

fn carol() -> AccountId {
    acct(3)
}

/// A ledger where Bob registered "residential" and Alice claimed "lot-42".
fn seeded() -> Delphi {
    let mut d = Delphi::new();
    d.register_account(alice(), b("alice"), b("Alice"), b("1700000000")).unwrap();
    d.register_account(bob(), b("bob"), b("Bob"), b("1700000001")).unwrap();
    d.register_account(carol(), b("carol"), b("Carol"), b("1700000002")).unwrap();
    d.register_ptype(bob(), b("residential"), b("QmReq")).unwrap();
    d.register_claim(alice(), b("residential"), b("lot-42"), b("QmClaim")).unwrap();
    d
}

#[test]
fn round_trip_scenario() {
    let mut d = Delphi::new();
    let created = d.register_account(alice(), b("alice"), b("Alice"), b("t0")).unwrap();
    assert_eq!(created.name, b("Alice"));
    d.register_account(carol(), b("carol"), b("Carol"), b("t0")).unwrap();
    d.register_ptype(bob(), b("residential"), b("QmReq")).unwrap();
    d.register_claim(alice(), b("residential"), b("lot-42"), b("QmClaim")).unwrap();
    assert_eq!(d.property_claims(&b("residential")), b("lot-42#"));

    let signed = d.sign_document(bob(), b("lot-42"), b("residential"), b("1700000500")).unwrap();
    let signed = signed.expect("property exists");
    assert_eq!(signed.attester.bytes, bob().bytes);
    let p = d.property(&b("lot-42")).unwrap();
    assert_eq!(p.assertion.0, b("1700000500"));
    assert_eq!(p.assertion.1.bytes, bob().bytes);
    assert_eq!(d.attestation_status(&b("lot-42")), b("@1700000500"));

    let moved = d
        .transfer_property(alice(), b("lot-42"), carol(), b("QmClaim2"), b(""), b(""), b(""), b("1700000900"))
        .unwrap()
        .expect("property exists");
    assert_eq!(moved.property_id, b("lot-42"));
    assert_eq!(d.property_detail(&b("lot-42")), b("carol$QmClaim2$residential"));
    let p = d.property(&b("lot-42")).unwrap();
    assert_eq!(p.claimer.bytes, carol().bytes);
    assert_eq!(p.transfer_history.len(), 1);
    assert_eq!(d.attestation_status(&b("lot-42")), b("alice$@"));
}

#[test]
fn self_transfer_is_rejected() {
    let mut d = seeded();
    let r = d.transfer_property(alice(), b("lot-42"), alice(), b("x"), b("s"), b("y"), b("r"), b("t"));
    assert!(matches!(r, Err(Error::CannotTransferToSelf)));
    assert_eq!(d.property_claims(&b("residential")), b("lot-42#"));
    let p = d.property(&b("lot-42")).unwrap();
    assert_eq!(p.claimer.bytes, alice().bytes);
    assert!(p.transfer_history.is_empty());
    assert!(d.property(&b("s")).is_none());
}

#[test]
fn self_transfer_of_unknown_property_is_rejected() {
    let mut d = Delphi::new();
    let r = d.transfer_property(alice(), b("nope"), alice(), b(""), b(""), b(""), b(""), b("t"));
    assert!(matches!(r, Err(Error::CannotTransferToSelf)));
}

#[test]
fn split_replaces_old_id_with_two_new_ids() {
    let mut d = seeded();
    d.register_claim(carol(), b("residential"), b("lot-7"), b("QmOther")).unwrap();
    let r = d
        .transfer_property(alice(), b("lot-42"), carol(), b("QmS"), b("lot-42a"), b("QmR"), b("lot-42b"), b("t9"))
        .unwrap();
    assert!(r.is_some());
    assert_eq!(d.property_claims(&b("residential")), b("lot-7#lot-42a#lot-42b#"));
    assert!(d.property(&b("lot-42")).is_none());

    let s = d.property(&b("lot-42a")).unwrap();
    assert_eq!(s.claimer.bytes, alice().bytes);
    assert_eq!(s.property_claim_addr, b("QmS"));
    assert_eq!(s.property_type_id, b("residential"));
    assert_eq!(s.transfer_history.len(), 1);
    assert_eq!(s.transfer_history[0].0.bytes, alice().bytes);
    assert_eq!(s.transfer_history[0].1, b("t9"));
    assert!(s.assertion.0.is_empty());
    assert_eq!(s.assertion.1.bytes, alice().bytes);

    let r = d.property(&b("lot-42b")).unwrap();
    assert_eq!(r.claimer.bytes, carol().bytes);
    assert_eq!(r.property_claim_addr, b("QmR"));
    assert_eq!(r.transfer_history.len(), 1);
    assert_eq!(r.transfer_history[0].0.bytes, alice().bytes);
    assert!(r.assertion.0.is_empty());
    assert_eq!(r.assertion.1.bytes, carol().bytes);
    assert_eq!(d.property_detail(&b("lot-42b")), b("carol$QmR$residential"));
}

#[test]
fn split_starts_fresh_history() {
    let mut d = seeded();
    d.transfer_property(alice(), b("lot-42"), bob(), b("A1"), b(""), b(""), b(""), b("t1")).unwrap();
    d.transfer_property(bob(), b("lot-42"), carol(), b("A2"), b(""), b(""), b(""), b("t2")).unwrap();
    assert_eq!(d.property(&b("lot-42")).unwrap().transfer_history.len(), 2);
    d.transfer_property(carol(), b("lot-42"), alice(), b("S"), b("lot-42-west"), b("R"), b("lot-42-east"), b("t3")).unwrap();
    assert_eq!(d.property(&b("lot-42-west")).unwrap().transfer_history.len(), 1);
    assert_eq!(d.attestation_status(&b("lot-42-east")), b("carol$@"));
}

#[test]
fn split_with_equal_new_ids_lists_one_id() {
    let mut d = seeded();
    d.transfer_property(alice(), b("lot-42"), carol(), b("S"), b("same"), b("R"), b("same"), b("t")).unwrap();
    assert_eq!(d.property_claims(&b("residential")), b("same#"));
    let p = d.property(&b("same")).unwrap();
    assert_eq!(p.claimer.bytes, carol().bytes);
}

#[test]
fn whole_transfer_appends_history_and_lapses_attestation() {
    let mut d = seeded();
    d.sign_document(bob(), b("lot-42"), b("residential"), b("signed-at")).unwrap();
    d.transfer_property(alice(), b("lot-42"), carol(), b("A1"), b("ignored"), b(""), b("ignored"), b("t1"))
        .unwrap();
    let p = d.property(&b("lot-42")).unwrap();
    assert_eq!(p.transfer_history.len(), 1);
    assert!(p.assertion.0.is_empty());
    assert_eq!(p.assertion.1.bytes, carol().bytes);
    d.transfer_property(carol(), b("lot-42"), bob(), b("A2"), b(""), b(""), b(""), b("t2")).unwrap();
    let p = d.property(&b("lot-42")).unwrap();
    assert_eq!(p.transfer_history.len(), 2);
    assert_eq!(p.transfer_history[0].0.bytes, alice().bytes);
    assert_eq!(p.transfer_history[0].1, b("t1"));
    assert_eq!(p.transfer_history[1].0.bytes, carol().bytes);
    assert_eq!(p.transfer_history[1].1, b("t2"));
    assert_eq!(p.claimer.bytes, bob().bytes);
    assert_eq!(p.property_claim_addr, b("A2"));
    assert_eq!(d.property_claims(&b("residential")), b("lot-42#"));
    assert!(d.property(&b("ignored")).is_none());
    assert_eq!(d.attestation_status(&b("lot-42")), b("alice$carol$@"));
}

#[test]
fn transfer_of_unknown_property_does_nothing() {
    let mut d = seeded();
    let r = d.transfer_property(alice(), b("nope"), carol(), b("S"), b("a"), b("R"), b("b"), b("t"));
    assert!(matches!(r, Ok(None)));
    assert!(d.property(&b("a")).is_none());
    assert_eq!(d.property_claims(&b("residential")), b("lot-42#"));
}

#[test]
fn unauthorized_signer_is_refused() {
    let mut d = seeded();
    d.register_ptype(carol(), b("commercial"), b("QmCom")).unwrap();
    let r = d.sign_document(carol(), b("lot-42"), b("residential"), b("t"));
    assert!(matches!(r, Err(Error::UnauthorizedAccount)));
    let p = d.property(&b("lot-42")).unwrap();
    assert!(p.assertion.0.is_empty());
    assert_eq!(p.assertion.1.bytes, alice().bytes);
}

#[test]
fn signer_without_types_is_not_checked() {
    let mut d = seeded();
    let r = d.sign_document(carol(), b("lot-42"), b("residential"), b("t5")).unwrap();
    assert!(r.is_some());
    let p = d.property(&b("lot-42")).unwrap();
    assert_eq!(p.assertion.0, b("t5"));
    assert_eq!(p.assertion.1.bytes, carol().bytes);
}

#[test]
fn signing_unknown_property_does_nothing() {
    let mut d = seeded();
    let r = d.sign_document(bob(), b("nope"), b("residential"), b("t"));
    assert!(matches!(r, Ok(None)));
    assert!(d.property(&b("nope")).is_none());
}

#[test]
fn duplicate_claim_is_listed_once() {
    let mut d = seeded();
    d.register_claim(carol(), b("residential"), b("lot-42"), b("QmOther")).unwrap();
    assert_eq!(d.property_claims(&b("residential")), b("lot-42#"));
    let p = d.property(&b("lot-42")).unwrap();
    assert_eq!(p.claimer.bytes, carol().bytes);
    assert_eq!(p.property_claim_addr, b("QmOther"));
}

#[test]
fn claims_of_unknown_type_are_empty() {
    let d = seeded();
    assert!(d.property_claims(&b("farmland")).is_empty());
}

#[test]
fn ptype_documents_lists_every_registration() {
    let mut d = seeded();
    d.register_ptype(bob(), b("commercial"), b("QmCom")).unwrap();
    d.register_ptype(bob(), b("commercial"), b("QmCom2")).unwrap();
    assert_eq!(
        d.ptype_documents(bob()),
        b("residential~QmReq###commercial~QmCom###commercial~QmCom2###")
    );
    assert!(d.ptype_documents(carol()).is_empty());
}

#[test]
fn account_exists_reports_name() {
    let mut d = Delphi::new();
    assert_eq!(d.account_exists(alice()), (false, Vec::new()));
    d.register_account(alice(), b("alice"), b("Alice"), b("t0")).unwrap();
    assert_eq!(d.account_exists(alice()), (true, b("Alice")));
    d.register_account(alice(), b("alice2"), b("Alicia"), b("t1")).unwrap();
    assert_eq!(d.account_exists(alice()), (true, b("Alicia")));
    assert_eq!(d.convert_accountid_to_vec(&alice()), b("alice2"));
    assert!(d.convert_accountid_to_vec(&bob()).is_empty());
}

#[test]
fn detail_without_known_claimer_omits_id() {
    let mut d = Delphi::new();
    d.register_claim(alice(), b("t"), b("p"), b("addr")).unwrap();
    assert_eq!(d.property_detail(&b("p")), b("addr$t"));
    assert!(d.property_detail(&b("q")).is_empty());
    assert!(d.attestation_status(&b("q")).is_empty());
}

#[test]
fn events_carry_key_ids() {
    let mut d = Delphi::new();
    let e = d.register_ptype(bob(), b("residential"), b("QmReq")).unwrap();
    assert_eq!(e.account_id.bytes, bob().bytes);
    assert_eq!(e.property_type_id, b("residential"));
    assert_eq!(e.ptype_ipfs_addr, b("QmReq"));
    let e = d.register_claim(alice(), b("residential"), b("lot-1"), b("Qm")).unwrap();
    assert_eq!(e.claimer.bytes, alice().bytes);
    assert_eq!(e.property_id, b("lot-1"));
    let e = d
        .transfer_property(alice(), b("lot-1"), carol(), b("S"), b("a"), b("R"), b("b"), b("t"))
        .unwrap()
        .unwrap();
    assert_eq!(e.sender.bytes, alice().bytes);
    assert_eq!(e.recipient.bytes, carol().bytes);
    assert_eq!(e.property_id, b("lot-1"));
}
