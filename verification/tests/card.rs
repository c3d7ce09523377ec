//! Card-session behaviour: context switching, authentication, application
//! lifecycle, key rotation, and file access.

use card_protocol::card::Card;
use card_protocol::card::CardError;
use card_protocol::card::Encryption;
use card_protocol::card::FileSettingsAccessRights;
use card_protocol::card::FileSettingsAccessRightsKey;
use card_protocol::card::FileSettingsCommunication;
use card_protocol::card::KeySettings;
use card_protocol::card::KeySettingsAccessRights;
use card_protocol::card::PICC_APPLICATION;

fn fresh_card() -> Card {
    Card::new(vec![0x3B, 0x81], vec![0x01, 0x02])
}

fn zero_key() -> Vec<u8> {
    vec![0u8; 16]
}

fn open_settings() -> KeySettings {
    KeySettings {
        access_rights: KeySettingsAccessRights::MasterKey,
        master_key_settings_changeable: true,
        master_key_not_required_create_delete: false,
        master_key_not_required_directory_access: false,
        master_key_changeable: true,
    }
}

fn master_only_rights() -> FileSettingsAccessRights {
    FileSettingsAccessRights {
        read: FileSettingsAccessRightsKey::MasterKey,
        write: FileSettingsAccessRightsKey::MasterKey,
        read_write: FileSettingsAccessRightsKey::MasterKey,
        change_access: FileSettingsAccessRightsKey::MasterKey,
    }
}

/// Root context plus one application ready for file work.
fn card_with_app(aid: u32) -> Card {
    let mut card = fresh_card();
    card.select_application(PICC_APPLICATION).unwrap();
    card.authenticate(0, &zero_key()).unwrap();
    card.create_application(aid, open_settings(), 1).unwrap();
    card.select_application(aid).unwrap();
    card.authenticate(0, &zero_key()).unwrap();
    card
}

#[test]
fn select_unknown_application_not_found() {
    let mut card = fresh_card();
    assert_eq!(card.select_application(5), Err(CardError::ApplicationNotFound));
}

#[test]
fn authenticate_wrong_key_fails() {
    let mut card = fresh_card();
    card.select_application(PICC_APPLICATION).unwrap();
    let wrong = vec![0xAAu8; 16];
    assert_eq!(card.authenticate(0, &wrong), Err(CardError::AuthFailed));
    assert!(card.session.is_none());
    assert!(card.authenticate(0, &zero_key()).is_ok());
    assert!(card.session.is_some());
}

#[test]
fn create_application_requires_root_session() {
    let mut card = fresh_card();
    assert_eq!(
        card.create_application(7, open_settings(), 1),
        Err(CardError::PermissionDenied)
    );
}

#[test]
fn create_duplicate_application_rejected() {
    let mut card = fresh_card();
    card.select_application(PICC_APPLICATION).unwrap();
    card.authenticate(0, &zero_key()).unwrap();
    card.create_application(7, open_settings(), 1).unwrap();
    assert_eq!(
        card.create_application(7, open_settings(), 1),
        Err(CardError::DuplicateApplication)
    );
}

#[test]
fn delete_missing_application_not_found() {
    let mut card = fresh_card();
    card.select_application(PICC_APPLICATION).unwrap();
    card.authenticate(0, &zero_key()).unwrap();
    assert_eq!(card.delete_application(9), Err(CardError::ApplicationNotFound));
}

#[test]
fn application_directory_lists_created_apps() {
    let mut card = fresh_card();
    card.select_application(PICC_APPLICATION).unwrap();
    card.authenticate(0, &zero_key()).unwrap();
    card.create_application(7, open_settings(), 1).unwrap();
    card.create_application(8, open_settings(), 1).unwrap();
    assert_eq!(card.get_application_ids().unwrap(), vec![7, 8]);
    card.delete_application(7).unwrap();
    assert_eq!(card.get_application_ids().unwrap(), vec![8]);
}

#[test]
fn duplicate_file_rejected() {
    let mut card = card_with_app(7);
    card.create_std_data_file(
        1,
        FileSettingsCommunication::Enciphered,
        master_only_rights(),
        4,
    )
    .unwrap();
    assert_eq!(
        card.create_std_data_file(
            1,
            FileSettingsCommunication::Enciphered,
            master_only_rights(),
            4,
        ),
        Err(CardError::DuplicateFile)
    );
}

#[test]
fn read_missing_file_not_found() {
    let card = card_with_app(7);
    let session = zero_key();
    assert_eq!(
        card.read_data(3, 0, 0, Encryption::Encrypted(session)),
        Err(CardError::FileNotFound)
    );
}

#[test]
fn write_beyond_file_size_out_of_bounds() {
    let mut card = card_with_app(7);
    card.create_std_data_file(
        1,
        FileSettingsCommunication::Enciphered,
        master_only_rights(),
        4,
    )
    .unwrap();
    let session = zero_key();
    assert_eq!(
        card.write_data(1, 2, &vec![1, 2, 3], Encryption::Encrypted(session)),
        Err(CardError::OutOfBounds)
    );
}

#[test]
fn write_then_read_round_trips() {
    let mut card = card_with_app(7);
    card.create_std_data_file(
        1,
        FileSettingsCommunication::Enciphered,
        master_only_rights(),
        5,
    )
    .unwrap();
    let session = zero_key();
    card.write_data(1, 0, &b"hello".to_vec(), Encryption::Encrypted(session.clone()))
        .unwrap();
    let data = card.read_data(1, 0, 0, Encryption::Encrypted(session.clone())).unwrap();
    assert_eq!(data, b"hello".to_vec());
    let tail = card.read_data(1, 1, 3, Encryption::Encrypted(session)).unwrap();
    assert_eq!(tail, b"ell".to_vec());
}

#[test]
fn plain_access_to_enciphered_file_denied() {
    let mut card = card_with_app(7);
    card.create_std_data_file(
        1,
        FileSettingsCommunication::Enciphered,
        master_only_rights(),
        4,
    )
    .unwrap();
    assert_eq!(
        card.read_data(1, 0, 0, Encryption::Plain),
        Err(CardError::PermissionDenied)
    );
}

#[test]
fn change_key_invalidates_session_and_installs_new_key() {
    let mut card = card_with_app(7);
    let session = zero_key();
    let new_key = vec![0x42u8; 16];
    card.change_key(0, true, &zero_key(), &new_key, &session).unwrap();
    assert!(card.session.is_none());
    assert_eq!(
        card.create_std_data_file(
            1,
            FileSettingsCommunication::Enciphered,
            master_only_rights(),
            4,
        ),
        Err(CardError::PermissionDenied)
    );
    assert_eq!(card.authenticate(0, &zero_key()), Err(CardError::AuthFailed));
    assert!(card.authenticate(0, &new_key).is_ok());
}

#[test]
fn stale_session_key_rejected() {
    let mut card = card_with_app(7);
    let stale = vec![0x99u8; 16];
    assert_eq!(
        card.change_key(0, true, &zero_key(), &vec![1u8; 16], &stale),
        Err(CardError::AuthFailed)
    );
}

#[test]
fn locked_settings_refuse_change() {
    let mut card = card_with_app(7);
    let session = zero_key();
    let mut locked = open_settings();
    locked.master_key_settings_changeable = false;
    card.change_key_settings(locked, &session).unwrap();
    assert_eq!(
        card.change_key_settings(open_settings(), &session),
        Err(CardError::PermissionDenied)
    );
}
