//! End-to-end protocol scenarios: provisioning, identification, payment
//! authorization, and the silent-abort guards.

use card_protocol::card::Card;
use card_protocol::card::CardError;
use card_protocol::card::Encryption;
use card_protocol::card::KeySettings;
use card_protocol::card::KeySettingsAccessRights;
use card_protocol::protocol::ASCII_APPLICATION;
use card_protocol::protocol::ASCII_SECRET_FILE_NUMBER;
use card_protocol::protocol::card_identity;
use card_protocol::protocol::handle;
use card_protocol::protocol::handle_payment;
use card_protocol::protocol::init_ascii_card;
use card_protocol::protocol::is_writeable;
use card_protocol::response::create_response;
use card_protocol::server::Authentication;
use card_protocol::server::IdentScript;
use card_protocol::server::IdentificationRequest;
use card_protocol::server::IdentificationResponse;
use card_protocol::server::Message;
use card_protocol::server::PaymentScript;
use card_protocol::server::TokenResponse;

fn fresh_card() -> Card {
    Card::new(vec![0x3B, 0x81], vec![0x01, 0x02])
}

fn provisioned_card(key: &[u8], secret: &[u8]) -> Card {
    let mut card = fresh_card();
    init_ascii_card(&mut card, &key.to_vec(), &secret.to_vec()).unwrap();
    card
}

fn silent_script() -> IdentScript {
    IdentScript { first: None, after_provision: None, after_secret: None }
}

#[test]
fn response_is_deterministic() {
    let secret = b"shared-secret".to_vec();
    let challenge = b"challenge-1".to_vec();
    let first = create_response(&secret, &challenge).unwrap();
    let second = create_response(&secret, &challenge).unwrap();
    assert_eq!(first, second);
}

#[test]
fn responses_differ_for_distinct_challenges() {
    let secret = b"shared-secret".to_vec();
    let first = create_response(&secret, &b"challenge-1".to_vec()).unwrap();
    let second = create_response(&secret, &b"challenge-2".to_vec()).unwrap();
    assert_ne!(first, second);
}

#[test]
fn provisioning_is_idempotent_and_old_key_dies() {
    let mut card = fresh_card();
    let old_key = b"OLDKEY".to_vec();
    let new_key = b"NEWKEY".to_vec();
    init_ascii_card(&mut card, &old_key, &b"first".to_vec()).unwrap();
    init_ascii_card(&mut card, &new_key, &b"second".to_vec()).unwrap();
    assert_eq!(card.get_application_ids().unwrap(), vec![ASCII_APPLICATION]);
    card.select_application(ASCII_APPLICATION).unwrap();
    assert_eq!(card.authenticate(0, &old_key), Err(CardError::AuthFailed));
    let session = card.authenticate(0, &new_key).unwrap();
    let stored = card
        .read_data(ASCII_SECRET_FILE_NUMBER, 0, 0, Encryption::Encrypted(session))
        .unwrap();
    assert_eq!(stored, b"second".to_vec());
}

#[test]
fn provisioning_locks_key_settings() {
    let mut card = provisioned_card(b"NEWKEY", b"hello");
    card.select_application(ASCII_APPLICATION).unwrap();
    let session = card.authenticate(0, &b"NEWKEY".to_vec()).unwrap();
    let relaxed = KeySettings {
        access_rights: KeySettingsAccessRights::MasterKey,
        master_key_settings_changeable: true,
        master_key_not_required_create_delete: true,
        master_key_not_required_directory_access: true,
        master_key_changeable: true,
    };
    assert_eq!(
        card.change_key_settings(relaxed, &session),
        Err(CardError::PermissionDenied)
    );
}

#[test]
fn provisioning_fails_off_factory_root_key() {
    let mut card = fresh_card();
    let session = vec![0u8; 16];
    card.select_application(0).unwrap();
    card.authenticate(0, &session).unwrap();
    card.change_key(0, true, &session, &vec![7u8; 16], &session).unwrap();
    assert_eq!(
        init_ascii_card(&mut card, &b"KEY".to_vec(), &b"s".to_vec()),
        Err(CardError::AuthFailed)
    );
    assert_eq!(is_writeable(&mut card), Err(CardError::AuthFailed));
}

#[test]
fn identity_mismatch_aborts_identification_silently() {
    let mut card = provisioned_card(b"KEY", b"hello");
    let script = IdentScript {
        first: Some(IdentificationResponse::AuthenticationNeeded {
            id: b"someone-else".to_vec(),
            key: b"KEY".to_vec(),
            challenge: b"ch".to_vec(),
        }),
        after_provision: None,
        after_secret: None,
    };
    let before_selected = card.selected;
    let before_session = card.session.clone();
    let t = handle(&mut card, &script).unwrap();
    assert!(t.message.is_none());
    assert_eq!(t.sent.len(), 1);
    assert_eq!(card.selected, before_selected);
    assert_eq!(card.session, before_session);
}

#[test]
fn identity_mismatch_aborts_payment_silently() {
    let mut card = provisioned_card(b"KEY", b"hello");
    let script = PaymentScript {
        first: Some(TokenResponse::AuthenticationNeeded {
            id: b"someone-else".to_vec(),
            key: b"KEY".to_vec(),
            challenge: b"ch".to_vec(),
        }),
        after_secret: None,
    };
    let t = handle_payment(&mut card, &script, 500).unwrap();
    assert!(t.message.is_none());
    assert_eq!(t.sent.len(), 1);
}

#[test]
fn no_reply_aborts_silently() {
    let mut card = fresh_card();
    let t = handle(&mut card, &silent_script()).unwrap();
    assert!(t.message.is_none());
    assert_eq!(t.sent.len(), 1);
    match &t.sent[0] {
        IdentificationRequest::Nfc { id } => assert_eq!(*id, card_identity(&card)),
        _ => panic!("expected a plain identification request"),
    }
}

#[test]
fn account_reply_is_delivered() {
    let mut card = fresh_card();
    let script = IdentScript {
        first: Some(IdentificationResponse::Account { account: b"acct-7".to_vec() }),
        after_provision: None,
        after_secret: None,
    };
    let t = handle(&mut card, &script).unwrap();
    match t.message {
        Some(Message::Account { account }) => assert_eq!(account, b"acct-7".to_vec()),
        other => panic!("expected an account outcome, got {:?}", other),
    }
}

#[test]
fn fresh_card_reports_unresolved_and_writeable() {
    let mut card = fresh_card();
    let id = card_identity(&card);
    let script = IdentScript {
        first: Some(IdentificationResponse::NotFound),
        after_provision: None,
        after_secret: None,
    };
    let t = handle(&mut card, &script).unwrap();
    match t.message {
        Some(Message::NfcCard { id: got, writeable }) => {
            assert_eq!(got, id);
            assert!(writeable);
        },
        other => panic!("expected an unresolved-card outcome, got {:?}", other),
    }
}

#[test]
fn rotated_root_key_reports_not_writeable() {
    let mut card = fresh_card();
    let session = vec![0u8; 16];
    card.select_application(0).unwrap();
    card.authenticate(0, &session).unwrap();
    card.change_key(0, true, &session, &vec![7u8; 16], &session).unwrap();
    let script = IdentScript {
        first: Some(IdentificationResponse::NotFound),
        after_provision: None,
        after_secret: None,
    };
    let t = handle(&mut card, &script).unwrap();
    match t.message {
        Some(Message::NfcCard { writeable, .. }) => assert!(!writeable),
        other => panic!("expected an unresolved-card outcome, got {:?}", other),
    }
}

#[test]
fn write_key_provisions_and_resolves_account() {
    let mut card = fresh_card();
    let id = card_identity(&card);
    let key = b"AABBCCDDEEFF00112233445566778899".to_vec();
    let script = IdentScript {
        first: Some(IdentificationResponse::WriteKey {
            id: id.clone(),
            key: key.clone(),
            secret: b"hello".to_vec(),
        }),
        after_provision: Some(IdentificationResponse::AuthenticationNeeded {
            id: id.clone(),
            key: key.clone(),
            challenge: b"challenge-9".to_vec(),
        }),
        after_secret: Some(IdentificationResponse::Account { account: b"acct-1".to_vec() }),
    };
    let t = handle(&mut card, &script).unwrap();
    assert_eq!(t.sent.len(), 3);
    match &t.sent[2] {
        IdentificationRequest::NfcSecret { id: got, challenge, response } => {
            assert_eq!(*got, id);
            assert_eq!(*challenge, b"challenge-9".to_vec());
            assert_eq!(*response, b"challenge-9".to_vec());
        },
        other => panic!("expected a challenge answer, got {:?}", other),
    }
    match t.message {
        Some(Message::Account { account }) => assert_eq!(account, b"acct-1".to_vec()),
        other => panic!("expected an account outcome, got {:?}", other),
    }
    let mut card2 = card;
    card2.select_application(ASCII_APPLICATION).unwrap();
    let session = card2.authenticate(0, &key).unwrap();
    let stored = card2
        .read_data(ASCII_SECRET_FILE_NUMBER, 0, 0, Encryption::Encrypted(session))
        .unwrap();
    assert_eq!(stored, b"hello".to_vec());
}

#[test]
fn empty_secret_provisions_empty_file() {
    let mut card = fresh_card();
    init_ascii_card(&mut card, &b"KEY".to_vec(), &Vec::new()).unwrap();
    card.select_application(ASCII_APPLICATION).unwrap();
    let session = card.authenticate(0, &b"KEY".to_vec()).unwrap();
    let stored = card
        .read_data(ASCII_SECRET_FILE_NUMBER, 0, 0, Encryption::Encrypted(session))
        .unwrap();
    assert!(stored.is_empty());
}

#[test]
fn product_reply_is_delivered() {
    let mut card = fresh_card();
    let script = IdentScript {
        first: Some(IdentificationResponse::Product { product: b"prod-3".to_vec() }),
        after_provision: None,
        after_secret: None,
    };
    let t = handle(&mut card, &script).unwrap();
    match t.message {
        Some(Message::Product { product }) => assert_eq!(product, b"prod-3".to_vec()),
        other => panic!("expected a product outcome, got {:?}", other),
    }
}

#[test]
fn payment_challenge_flow_delivers_token() {
    let mut card = provisioned_card(b"KEY", b"hello");
    let id = card_identity(&card);
    let script = PaymentScript {
        first: Some(TokenResponse::AuthenticationNeeded {
            id: id.clone(),
            key: b"KEY".to_vec(),
            challenge: b"pay-ch".to_vec(),
        }),
        after_secret: Some(TokenResponse::Authorized { token: b"tok-1".to_vec() }),
    };
    let t = handle_payment(&mut card, &script, 500).unwrap();
    assert_eq!(t.sent.len(), 2);
    assert_eq!(t.sent[0].amount, 500);
    match &t.sent[1].method {
        Authentication::NfcSecret { id: got, challenge, response } => {
            assert_eq!(*got, id);
            assert_eq!(*challenge, b"pay-ch".to_vec());
            assert_eq!(*response, b"pay-ch".to_vec());
        },
        other => panic!("expected a challenge answer, got {:?}", other),
    }
    match t.message {
        Some(Message::PaymentToken { token }) => assert_eq!(token, b"tok-1".to_vec()),
        other => panic!("expected a payment token, got {:?}", other),
    }
}

#[test]
fn immediate_authorization_delivers_token() {
    let mut card = provisioned_card(b"KEY", b"hello");
    let script = PaymentScript {
        first: Some(TokenResponse::Authorized { token: b"tok-2".to_vec() }),
        after_secret: None,
    };
    let t = handle_payment(&mut card, &script, 42).unwrap();
    assert_eq!(t.sent.len(), 1);
    match t.message {
        Some(Message::PaymentToken { token }) => assert_eq!(token, b"tok-2".to_vec()),
        other => panic!("expected a payment token, got {:?}", other),
    }
}

#[test]
fn wrong_key_aborts_identification_with_card_error() {
    let mut card = provisioned_card(b"RIGHT-KEY", b"hello");
    let id = card_identity(&card);
    let script = IdentScript {
        first: Some(IdentificationResponse::AuthenticationNeeded {
            id,
            key: b"WRONG-KEY".to_vec(),
            challenge: b"ch".to_vec(),
        }),
        after_provision: None,
        after_secret: None,
    };
    assert!(matches!(handle(&mut card, &script), Err(CardError::AuthFailed)));
}

#[test]
fn wrong_key_aborts_payment_with_card_error() {
    let mut card = provisioned_card(b"RIGHT-KEY", b"hello");
    let id = card_identity(&card);
    let script = PaymentScript {
        first: Some(TokenResponse::AuthenticationNeeded {
            id,
            key: b"WRONG-KEY".to_vec(),
            challenge: b"ch".to_vec(),
        }),
        after_secret: None,
    };
    assert!(matches!(handle_payment(&mut card, &script, 5), Err(CardError::AuthFailed)));
}

#[test]
fn unprovisioned_card_cannot_answer_challenge() {
    let mut card = fresh_card();
    let id = card_identity(&card);
    let script = IdentScript {
        first: Some(IdentificationResponse::AuthenticationNeeded {
            id,
            key: b"KEY".to_vec(),
            challenge: b"ch".to_vec(),
        }),
        after_provision: None,
        after_secret: None,
    };
    assert!(matches!(
        handle(&mut card, &script),
        Err(CardError::ApplicationNotFound)
    ));
}

#[test]
fn unexpected_reply_after_provisioning_aborts_silently() {
    let mut card = fresh_card();
    let id = card_identity(&card);
    let script = IdentScript {
        first: Some(IdentificationResponse::WriteKey {
            id,
            key: b"KEY".to_vec(),
            secret: b"hello".to_vec(),
        }),
        after_provision: Some(IdentificationResponse::NotFound),
        after_secret: None,
    };
    let t = handle(&mut card, &script).unwrap();
    assert!(t.message.is_none());
    assert_eq!(t.sent.len(), 2);
    card.select_application(ASCII_APPLICATION).unwrap();
    assert!(card.authenticate(0, &b"KEY".to_vec()).is_ok());
}
