use banko::gate::RemoteAddr;
use banko::ledger::{Claim, ClaimLedger, ClaimType, LedgerError};
use banko::notify::{banko, compose, conclude_claim, ClaimAction, ClaimError, NotificationError};

const NOW: u64 = 1_700_000_000;

fn sent() -> Result<(), NotificationError> {
    Ok(())
}

fn not_sent(message: &str) -> Result<(), NotificationError> {
    Err(NotificationError { message: message.to_string() })
}

#[test]
fn claim_types_have_codes() {
    assert_eq!(ClaimType::from_code(1), Some(ClaimType::OneLine));
    assert_eq!(ClaimType::from_code(2), Some(ClaimType::TwoLines));
    assert_eq!(ClaimType::from_code(3), Some(ClaimType::FullBoard));
    for how in [0, 4, -1, i32::MAX, i32::MIN] {
        assert_eq!(ClaimType::from_code(how), None);
    }
    for claim_type in [ClaimType::OneLine, ClaimType::TwoLines, ClaimType::FullBoard] {
        assert_eq!(ClaimType::from_code(claim_type.code()), Some(claim_type));
    }
}

#[test]
fn claim_types_have_descriptions() {
    assert_eq!(ClaimType::OneLine.description(), "1 række.");
    assert_eq!(ClaimType::TwoLines.description(), "2 rækker.");
    assert_eq!(ClaimType::FullBoard.description(), "hele pladen!");
}

#[test]
fn record_claim_numbers_claims_from_one() {
    let mut ledger = ClaimLedger::new();
    assert_eq!(ledger.len(), 0);
    assert_eq!(ledger.list_claims(), vec![]);
    assert_eq!(ledger.record_claim("Ane".to_string(), ClaimType::OneLine, NOW), Ok(1));
    assert_eq!(ledger.record_claim("Bo".to_string(), ClaimType::FullBoard, NOW + 60), Ok(2));
    assert_eq!(ledger.len(), 2);
}

#[test]
fn list_claims_puts_the_most_recent_first() {
    let mut ledger = ClaimLedger::new();
    ledger.record_claim("Ane".to_string(), ClaimType::OneLine, NOW).unwrap();
    ledger.record_claim("Bo".to_string(), ClaimType::TwoLines, NOW + 60).unwrap();
    ledger.record_claim("Ane".to_string(), ClaimType::FullBoard, NOW + 120).unwrap();
    assert_eq!(
        ledger.list_claims(),
        vec![
            Claim {
                id: 3,
                claimant_name: "Ane".to_string(),
                claim_type: ClaimType::FullBoard,
                recorded_at: NOW + 120
            },
            Claim {
                id: 2,
                claimant_name: "Bo".to_string(),
                claim_type: ClaimType::TwoLines,
                recorded_at: NOW + 60
            },
            Claim {
                id: 1,
                claimant_name: "Ane".to_string(),
                claim_type: ClaimType::OneLine,
                recorded_at: NOW
            },
        ]
    );
}

#[test]
fn from_claims_wants_ascending_ids() {
    let claim = |id: i32| Claim {
        id,
        claimant_name: "Cy".to_string(),
        claim_type: ClaimType::OneLine,
        recorded_at: NOW,
    };
    let ledger = ClaimLedger::from_claims(vec![claim(2), claim(5)]).unwrap();
    assert_eq!(ledger.list_claims(), vec![claim(5), claim(2)]);
    assert!(ClaimLedger::from_claims(vec![claim(5), claim(2)]).is_none());
    assert!(ClaimLedger::from_claims(vec![claim(5), claim(5)]).is_none());
    assert!(ClaimLedger::from_claims(vec![]).is_some());
}

#[test]
fn record_claim_fails_when_the_ids_are_used_up() {
    let last = Claim {
        id: i32::MAX,
        claimant_name: "Cy".to_string(),
        claim_type: ClaimType::OneLine,
        recorded_at: NOW,
    };
    let mut ledger = ClaimLedger::from_claims(vec![last.clone()]).unwrap();
    assert_eq!(
        ledger.record_claim("Di".to_string(), ClaimType::TwoLines, NOW),
        Err(LedgerError::Persistence)
    );
    assert_eq!(ledger.list_claims(), vec![last]);
}

#[test]
fn compose_writes_subject_and_body() {
    let notification = compose("Ane", ClaimType::TwoLines);
    assert_eq!(notification.subject, "Ane har vundet");
    assert_eq!(notification.body, "Hej!\n\nAne ansøger om gevinst for 2 rækker.");
    let other = compose("", ClaimType::FullBoard);
    assert_eq!(other.subject, " har vundet");
    assert_eq!(other.body, "Hej!\n\n ansøger om gevinst for hele pladen!");
    assert_eq!(
        compose("Søren Å", ClaimType::OneLine).body,
        "Hej!\n\nSøren Å ansøger om gevinst for 1 række."
    );
}

#[test]
fn banko_lets_in_a_claim_from_the_allowed_address() {
    let remote = RemoteAddr::from_parts(Some("203.0.113.7, 10.0.0.1"), "127.0.0.1");
    assert_eq!(
        banko(&remote, "203.0.113.7", "Ane", 3),
        ClaimAction::Notify {
            claim_type: ClaimType::FullBoard,
            notification: compose("Ane", ClaimType::FullBoard)
        }
    );
}

#[test]
fn banko_refuses_other_addresses_and_unknown_codes() {
    let remote = RemoteAddr::from_parts(None, "192.0.2.33");
    assert_eq!(banko(&remote, "203.0.113.7", "Ane", 1), ClaimAction::Refuse);
    assert_eq!(banko(&remote, "", "Ane", 1), ClaimAction::Refuse);
    assert_eq!(banko(&remote, "192.0.2.33", "Ane", 0), ClaimAction::Refuse);
    assert_eq!(banko(&remote, "192.0.2.33", "Ane", 4), ClaimAction::Refuse);
    assert!(matches!(banko(&remote, "192.0.2.33", "Ane", 1), ClaimAction::Notify { .. }));
}

#[test]
fn claim_is_recorded_when_the_notification_went_out() {
    let mut ledger = ClaimLedger::new();
    assert_eq!(
        conclude_claim(&mut ledger, "Ane".to_string(), ClaimType::OneLine, sent(), NOW),
        Ok(1)
    );
    assert_eq!(
        conclude_claim(&mut ledger, "Bo".to_string(), ClaimType::TwoLines, sent(), NOW + 9),
        Ok(2)
    );
    assert_eq!(
        ledger.list_claims()[0],
        Claim {
            id: 2,
            claimant_name: "Bo".to_string(),
            claim_type: ClaimType::TwoLines,
            recorded_at: NOW + 9
        }
    );
    assert_eq!(ledger.len(), 2);
}

#[test]
fn claim_is_not_recorded_when_the_notification_failed() {
    let mut ledger = ClaimLedger::new();
    conclude_claim(&mut ledger, "Ane".to_string(), ClaimType::OneLine, sent(), NOW).unwrap();
    let before = ledger.list_claims();
    let r = conclude_claim(
        &mut ledger,
        "Bo".to_string(),
        ClaimType::FullBoard,
        not_sent("relay refused: 554"),
        NOW + 1,
    );
    assert_eq!(r, Err(ClaimError::NotificationFailure { message: "relay refused: 554".to_string() }));
    assert_eq!(r.unwrap_err().message(), "relay refused: 554");
    assert_eq!(ledger.list_claims(), before);
    let r = conclude_claim(&mut ledger, "Bo".to_string(), ClaimType::FullBoard, not_sent(""), NOW);
    assert_eq!(r.unwrap_err().message(), "");
    assert_eq!(ledger.list_claims(), before);
}

#[test]
fn claim_fails_when_the_ledger_is_full() {
    let last = Claim {
        id: i32::MAX,
        claimant_name: "Cy".to_string(),
        claim_type: ClaimType::OneLine,
        recorded_at: NOW,
    };
    let mut ledger = ClaimLedger::from_claims(vec![last.clone()]).unwrap();
    let r = conclude_claim(&mut ledger, "Di".to_string(), ClaimType::OneLine, sent(), NOW);
    assert_eq!(r, Err(ClaimError::Persistence));
    assert_eq!(r.unwrap_err().message(), "The claim could not be recorded");
    assert_eq!(ledger.list_claims(), vec![last]);
}
