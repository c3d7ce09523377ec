//! The two protocol orchestrators and secret provisioning.
//!
//! [`handle`] runs one identification transaction and [`handle_payment`]
//! one payment-authorization transaction against a live card and a script
//! of remote-service replies.  Both deliver at most one outcome; a missing
//! remote reply, or a server-asserted card identity that does not match the
//! locally computed one, aborts silently.  Card faults abort the
//! transaction and propagate as [`CardError`].

use vstd::prelude::*;

use crate::bytes::bytes_eq;
use crate::bytes::copy_bytes;
use crate::bytes::zero_bytes;
use crate::card::Application;
use crate::card::Card;
use crate::card::CardError;
use crate::card::Encryption;
use crate::card::FileSettingsAccessRights;
use crate::card::FileSettingsAccessRightsKey;
use crate::card::FileSettingsCommunication;
use crate::card::KeySettings;
use crate::card::KeySettingsAccessRights;
use crate::card::PICC_APPLICATION;
use crate::card::zeros16;
use crate::response::create_response;
use crate::response::response_of;
use crate::server::IdentScript;
use crate::server::IdentTranscript;
use crate::server::Authentication;
use crate::server::IdentificationRequest;
use crate::server::IdentificationResponse;
use crate::server::Message;
use crate::server::PaymentScript;
use crate::server::PaymentTranscript;
use crate::server::TokenRequest;
use crate::server::TokenResponse;

verus! {

/// Application id of the dedicated card application holding the secret.
pub const ASCII_APPLICATION: u32 = 0xC0FFEE;

/// File number of the secret file inside that application.
pub const ASCII_SECRET_FILE_NUMBER: u8 = 0;

/// Byte separating the two halves of a card identity.
pub const IDENTITY_SEPARATOR: u8 = 58;

/// The well-known factory default key, also the universal management key of
/// the root context.
pub fn default_key() -> (r: Vec<u8>)
    ensures
        r@ == zeros16(),
{
    let r = zero_bytes(16);
    proof {
        assert(r@ =~= zeros16());
    }
    r
}

/// The card identity: answer-to-reset, a separator, and the chip version
/// id.  The correlation key of every request/reply pair in one transaction.
pub open spec fn spec_card_identity(c: Card) -> Seq<u8> {
    c.atr@ + seq![IDENTITY_SEPARATOR] + c.version_id@
}

/// Compute the card identity of the presented card.
pub fn card_identity(card: &Card) -> (r: Vec<u8>)
    ensures
        r@ == spec_card_identity(*card),
{
    let mut r = card.get_atr();
    r.push(IDENTITY_SEPARATOR);
    let mut v = card.get_version_id();
    r.append(&mut v);
    proof {
        assert(r@ =~= spec_card_identity(*card));
    }
    r
}

/// Key settings a fresh application is created with: master-key policy
/// everywhere, settings still changeable so they can be locked afterwards.
pub open spec fn provision_settings() -> KeySettings {
    KeySettings {
        access_rights: KeySettingsAccessRights::MasterKey,
        master_key_settings_changeable: true,
        master_key_not_required_create_delete: false,
        master_key_not_required_directory_access: false,
        master_key_changeable: true,
    }
}

/// The locked key settings provisioning ends on: a one-way hardening step;
/// no key rotation or settings change is possible afterwards.
pub open spec fn locked_settings() -> KeySettings {
    KeySettings {
        access_rights: KeySettingsAccessRights::MasterKey,
        master_key_settings_changeable: false,
        master_key_not_required_create_delete: false,
        master_key_not_required_directory_access: false,
        master_key_changeable: false,
    }
}

/// Access rights of the secret file: master key only, on every right.
pub open spec fn secret_file_rights() -> FileSettingsAccessRights {
    FileSettingsAccessRights {
        read: FileSettingsAccessRightsKey::MasterKey,
        write: FileSettingsAccessRightsKey::MasterKey,
        read_write: FileSettingsAccessRightsKey::MasterKey,
        change_access: FileSettingsAccessRightsKey::MasterKey,
    }
}

/// A fully provisioned secret application: the given master key, locked
/// settings, and exactly one enciphered, master-key-only file holding the
/// secret, sized to the secret's byte length.
pub open spec fn provisioned_app(a: Application, key: Seq<u8>, secret: Seq<u8>) -> bool {
    &&& a.id == ASCII_APPLICATION
    &&& a.key@ == key
    &&& a.settings == locked_settings()
    &&& a.files@.len() == 1
    &&& a.files@[0].id == ASCII_SECRET_FILE_NUMBER
    &&& a.files@[0].comm == FileSettingsCommunication::Enciphered
    &&& a.files@[0].rights == secret_file_rights()
    &&& a.files@[0].size == secret.len()
    &&& a.files@[0].data@ == secret
}

/// The card carries a fully provisioned secret application.
pub open spec fn provisioned(c: Card, key: Seq<u8>, secret: Seq<u8>) -> bool {
    c.has_app(ASCII_APPLICATION) && provisioned_app(c.app_at(ASCII_APPLICATION), key, secret)
}

/// The secret stored on the card.
pub open spec fn stored_secret(c: Card) -> Seq<u8> {
    c.app_at(ASCII_APPLICATION).file_at(ASCII_SECRET_FILE_NUMBER).data@
}

/// What provisioning does to the card: the secret application stands last
/// in the directory, fully provisioned; a previous one is gone; everything
/// else on the card is untouched; the session is live under the new key.
pub open spec fn provision_result(c0: Card, c1: Card, key: Seq<u8>, secret: Seq<u8>) -> bool {
    &&& provisioned_app(c1.apps@.last(), key, secret)
    &&& c1.apps@.len() == if c0.has_app(ASCII_APPLICATION) {
        c0.apps@.len()
    } else {
        c0.apps@.len() + 1
    }
    &&& c1.apps@.drop_last() == if c0.has_app(ASCII_APPLICATION) {
        c0.apps@.remove(c0.app_idx(ASCII_APPLICATION))
    } else {
        c0.apps@
    }
    &&& c1.picc_key@ == c0.picc_key@
    &&& c1.picc_settings == c0.picc_settings
    &&& c1.selected == ASCII_APPLICATION
    &&& c1.session_valid(key)
}

/// On a well-formed card, [`provision_result`] makes the secret application
/// the one the card-state observers speak of.
pub proof fn lemma_provision_result_provisioned(c0: Card, c1: Card, key: Seq<u8>, secret: Seq<u8>)
    requires
        c1.wf(),
        provision_result(c0, c1, key, secret),
    ensures
        provisioned(c1, key, secret),
        stored_secret(c1) == secret,
        c1.current_key() == key,
{
    let j = c1.apps@.len() - 1;
    assert(c1.apps@[j] == c1.apps@.last());
    c1.lemma_app_idx(j);
    let a = c1.app_at(ASCII_APPLICATION);
    a.lemma_file_idx(0);
}

/// Two cards with the same application directory agree on every
/// application observer.
pub proof fn lemma_app_at_same(c0: Card, c1: Card, aid: u32)
    requires
        c0.wf(),
        c1.wf(),
        c0.apps@ == c1.apps@,
        c0.has_app(aid),
    ensures
        c1.has_app(aid),
        c1.app_idx(aid) == c0.app_idx(aid),
        c1.app_at(aid) == c0.app_at(aid),
{
    let j = c0.app_idx(aid);
    assert(0 <= j < c0.apps@.len() && c0.apps@[j].id == aid);
    c1.lemma_app_idx(j);
}

/// Probe whether the card is writable for provisioning: the root context
/// must still authenticate under the universal management key.
pub fn is_writeable(card: &mut Card) -> (r: Result<bool, CardError>)
    requires
        old(card).wf(),
    ensures
        final(card).wf(),
        final(card).same_durable(*old(card)),
        final(card).selected == PICC_APPLICATION,
        old(card).picc_key@ == zeros16() ==> r == Ok::<bool, CardError>(true)
            && final(card).session_valid(zeros16()),
        old(card).picc_key@ != zeros16() ==> r == Err::<bool, CardError>(CardError::AuthFailed)
            && final(card).session is None,
{
    card.select_application(PICC_APPLICATION)?;
    let key = default_key();
    card.authenticate(0, &key)?;
    Ok(true)
}

/// True exactly when the directory of ids holds `aid`.
fn contains_id(ids: &Vec<u32>, aid: u32) -> (r: bool)
    ensures
        r == exists|i: int| 0 <= i < ids@.len() && ids@[i] == aid,
{
    let mut i: usize = 0;
    while i < ids.len()
        invariant
            i <= ids@.len(),
            forall|j: int| 0 <= j < i ==> ids@[j] != aid,
        decreases ids@.len() - i,
    {
        if ids[i] == aid {
            return true;
        }
        i += 1;
    }
    false
}

/// Provision the card's secret application: authenticate the root context
/// under the universal management key, delete any previous secret
/// application, create a fresh one, rotate its master key to `key`, lock
/// the key settings, and store `secret` in a dedicated enciphered file.
///
/// Any step failing aborts the flow with the underlying [`CardError`] and
/// no rollback; on this model only the root authentication (card not in
/// factory master state) and an oversized secret can fail.
#[verifier::rlimit(100)]
pub fn init_ascii_card(card: &mut Card, key: &Vec<u8>, secret: &Vec<u8>) -> (r: Result<
    (),
    CardError,
>)
    requires
        old(card).wf(),
    ensures
        final(card).wf(),
        final(card).same_identity(*old(card)),
        secret@.len() > u32::MAX ==> r == Err::<(), CardError>(CardError::OutOfBounds)
            && *final(card) == *old(card),
        secret@.len() <= u32::MAX && old(card).picc_key@ != zeros16() ==> r == Err::<(),
            CardError>(CardError::AuthFailed) && final(card).same_durable(*old(card))
            && final(card).selected == PICC_APPLICATION && final(card).session is None,
        secret@.len() <= u32::MAX && old(card).picc_key@ == zeros16() ==> r == Ok::<(),
            CardError>(()) && provision_result(*old(card), *final(card), key@, secret@),
{
    if secret.len() > u32::MAX as usize {
        return Err(CardError::OutOfBounds);
    }
    card.select_application(PICC_APPLICATION)?;
    let management_key = default_key();
    card.authenticate(0, &management_key)?;

    let application_ids = match card.get_application_ids() {
        Ok(ids) => ids,
        Err(e) => {
            assert(false);
            return Err(e);
        },
    };
    let ghost c_auth = *card;
    if contains_id(&application_ids, ASCII_APPLICATION) {
        proof {
            let i = choose|i: int|
                0 <= i < application_ids@.len() && application_ids@[i] == ASCII_APPLICATION;
            assert(card.apps@[i].id == ASCII_APPLICATION);
            assert(card.has_app(ASCII_APPLICATION));
        }
        card.delete_application(ASCII_APPLICATION)?;
        proof {
            let s0 = c_auth.apps@;
            let j = c_auth.app_idx(ASCII_APPLICATION);
            s0.remove_ensures(j);
            assert forall|i: int| 0 <= i < card.apps@.len() implies card.apps@[i].id
                != ASCII_APPLICATION by {
                let i0 = if i < j {
                    i
                } else {
                    i + 1
                };
                assert(card.apps@[i] == s0[i0]);
                if i0 != j {
                    c_auth.lemma_app_idx(i0);
                }
            }
            assert(!card.has_app(ASCII_APPLICATION));
        }
    } else {
        proof {
            if card.has_app(ASCII_APPLICATION) {
                let i = card.app_idx(ASCII_APPLICATION);
                assert(application_ids@[i] == ASCII_APPLICATION);
            }
        }
    }

    card.create_application(
        ASCII_APPLICATION,
        KeySettings {
            access_rights: KeySettingsAccessRights::MasterKey,
            master_key_settings_changeable: true,
            master_key_not_required_create_delete: false,
            master_key_not_required_directory_access: false,
            master_key_changeable: true,
        },
        1,
    )?;
    let ghost c_created = *card;
    proof {
        c_created.lemma_app_idx(c_created.apps@.len() - 1);
    }
    card.select_application(ASCII_APPLICATION)?;
    proof {
        lemma_app_at_same(c_created, *card, ASCII_APPLICATION);
    }
    let session_key = card.authenticate(0, &management_key)?;

    card.change_key(0, true, &management_key, key, &session_key)?;
    let ghost c_keyed = *card;
    proof {
        c_keyed.lemma_app_idx(c_keyed.apps@.len() - 1);
    }
    let session_key = card.authenticate(0, key)?;
    card.change_key_settings(
        KeySettings {
            access_rights: KeySettingsAccessRights::MasterKey,
            master_key_settings_changeable: false,
            master_key_not_required_create_delete: false,
            master_key_not_required_directory_access: false,
            master_key_changeable: false,
        },
        &session_key,
    )?;
    let ghost c_locked = *card;
    proof {
        c_locked.lemma_app_idx(c_locked.apps@.len() - 1);
    }

    card.create_std_data_file(
        ASCII_SECRET_FILE_NUMBER,
        FileSettingsCommunication::Enciphered,
        FileSettingsAccessRights {
            read: FileSettingsAccessRightsKey::MasterKey,
            write: FileSettingsAccessRightsKey::MasterKey,
            read_write: FileSettingsAccessRightsKey::MasterKey,
            change_access: FileSettingsAccessRightsKey::MasterKey,
        },
        secret.len() as u32,
    )?;
    let ghost c_filed = *card;
    proof {
        c_filed.lemma_app_idx(c_filed.apps@.len() - 1);
        c_filed.apps@.last().lemma_file_idx(c_filed.apps@.last().files@.len() - 1);
    }

    card.write_data(
        ASCII_SECRET_FILE_NUMBER,
        0,
        secret,
        Encryption::Encrypted(copy_bytes(&session_key)),
    )?;
    proof {
        let last = card.apps@.len() - 1;
        assert(card.apps@.last() == card.apps@[last]);
        assert(card.apps@.last().files@[0].data@ =~= secret@);
        assert(card.apps@.drop_last() =~= if old(card).has_app(ASCII_APPLICATION) {
            old(card).apps@.remove(old(card).app_idx(ASCII_APPLICATION))
        } else {
            old(card).apps@
        });
    }
    Ok(())
}

/// The card fault, if any, that answering a challenge with `key` runs into
/// on this card state: missing secret application, wrong key, or missing
/// secret file.
pub open spec fn answer_outcome(c: Card, key: Seq<u8>) -> Option<CardError> {
    if !c.has_app(ASCII_APPLICATION) {
        Some(CardError::ApplicationNotFound)
    } else if key != c.app_at(ASCII_APPLICATION).key@ {
        Some(CardError::AuthFailed)
    } else if !c.app_at(ASCII_APPLICATION).has_file(ASCII_SECRET_FILE_NUMBER) {
        Some(CardError::FileNotFound)
    } else {
        None
    }
}

/// Select the secret application, authenticate under `key`, read the stored
/// secret under the established session key, and derive the response for
/// `challenge`.
pub fn answer_challenge(card: &mut Card, key: &Vec<u8>, challenge: &Vec<u8>) -> (r: Result<
    Vec<u8>,
    CardError,
>)
    requires
        old(card).wf(),
    ensures
        final(card).wf(),
        final(card).same_durable(*old(card)),
        match answer_outcome(*old(card), key@) {
            Some(e) => r == Err::<Vec<u8>, CardError>(e),
            None => (r matches Ok(resp) && resp@ == response_of(
                stored_secret(*old(card)),
                challenge@,
            ) && final(card).selected == ASCII_APPLICATION && final(card).session_valid(key@)),
        },
{
    card.select_application(ASCII_APPLICATION)?;
    proof {
        if old(card).has_app(ASCII_APPLICATION) {
            lemma_app_at_same(*old(card), *card, ASCII_APPLICATION);
        }
    }
    let session_key = card.authenticate(0, key)?;
    proof {
        if old(card).has_app(ASCII_APPLICATION) {
            lemma_app_at_same(*old(card), *card, ASCII_APPLICATION);
        }
    }
    let secret = card.read_data(
        ASCII_SECRET_FILE_NUMBER,
        0,
        0,
        Encryption::Encrypted(session_key),
    )?;
    proof {
        let a = card.app_at(ASCII_APPLICATION);
        let f = a.file_at(ASCII_SECRET_FILE_NUMBER);
        assert(secret@ =~= f.data@);
    }
    create_response(&secret, challenge)
}

/// A provisioned secret application authenticates with its new master key
/// and with nothing else: whatever key a previous provisioning installed is
/// dead.
pub proof fn lemma_provisioned_key_exclusive(
    c: Card,
    key: Seq<u8>,
    secret: Seq<u8>,
    key_no: u8,
    attempt: Seq<u8>,
)
    requires
        c.wf(),
        c.selected == ASCII_APPLICATION,
        provisioned(c, key, secret),
    ensures
        c.auth_accepts(key_no, attempt) <==> (key_no == 0 && attempt == key),
{
}

/// Re-provisioning replaces the secret application outright: the card that
/// provisioning leaves behind authenticates with the new master key and
/// with no other key, so a previously installed key is dead.
pub proof fn lemma_reprovision_excludes_old_key(
    c0: Card,
    c1: Card,
    old_key: Seq<u8>,
    new_key: Seq<u8>,
    secret: Seq<u8>,
    key_no: u8,
)
    requires
        c1.wf(),
        provision_result(c0, c1, new_key, secret),
        old_key != new_key,
    ensures
        c1.auth_accepts(0, new_key),
        !c1.auth_accepts(key_no, old_key),
{
    lemma_provision_result_provisioned(c0, c1, new_key, secret);
    lemma_provisioned_key_exclusive(c1, new_key, secret, key_no, old_key);
    lemma_provisioned_key_exclusive(c1, new_key, secret, 0, new_key);
}

/// After provisioning the key settings are locked: no session key makes
/// another `change_key_settings` acceptable.
pub proof fn lemma_provisioned_settings_locked(c: Card, key: Seq<u8>, secret: Seq<u8>, sk: Seq<u8>)
    requires
        c.wf(),
        c.selected == ASCII_APPLICATION,
        provisioned(c, key, secret),
    ensures
        !c.current_settings().master_key_settings_changeable,
        !c.change_settings_accepted(sk),
{
}

/// The request identifies the card by identity alone.
pub open spec fn identifies(req: IdentificationRequest, id: Seq<u8>) -> bool {
    req matches IdentificationRequest::Nfc { id: i } && i@ == id
}

/// The request submits `response` for `challenge` under the card identity.
pub open spec fn submits_response(
    req: IdentificationRequest,
    id: Seq<u8>,
    challenge: Seq<u8>,
    response: Seq<u8>,
) -> bool {
    req matches IdentificationRequest::NfcSecret { id: i, challenge: c, response: r } && i@ == id
        && c@ == challenge && r@ == response
}

/// The outcome a final identification reply maps to: an account or product
/// is delivered; anything else, or no reply, is a silent abort.
pub open spec fn final_ident_message(
    reply: Option<IdentificationResponse>,
    m: Option<Message>,
) -> bool {
    match reply {
        Some(IdentificationResponse::Account { account }) => m matches Some(
            Message::Account { account: a },
        ) && a@ == account@,
        Some(IdentificationResponse::Product { product }) => m matches Some(
            Message::Product { product: p },
        ) && p@ == product@,
        _ => m is None,
    }
}

/// Run one identification transaction: identify the card, follow the
/// service's decision (deliver a resolution, report an unresolved card with
/// its writability, provision on request, or answer a challenge), and
/// return the transcript.  A missing reply or a card-identity mismatch in a
/// reply aborts silently; card faults propagate.
pub fn handle(card: &mut Card, server: &IdentScript) -> (r: Result<IdentTranscript, CardError>)
    requires
        old(card).wf(),
    ensures
        final(card).wf(),
        final(card).same_identity(*old(card)),
        r matches Ok(t) ==> t.sent@.len() >= 1 && identifies(
            t.sent@[0],
            spec_card_identity(*old(card)),
        ),
        ({
            let id0 = spec_card_identity(*old(card));
            match server.first {
                None => (r matches Ok(t) && t.message is None && t.sent@.len() == 1 && *final(card)
                    == *old(card)),
                Some(IdentificationResponse::Account { .. }) => (r matches Ok(t)
                    && final_ident_message(server.first, t.message) && t.sent@.len() == 1
                    && *final(card) == *old(card)),
                Some(IdentificationResponse::Product { .. }) => (r matches Ok(t)
                    && final_ident_message(server.first, t.message) && t.sent@.len() == 1
                    && *final(card) == *old(card)),
                Some(IdentificationResponse::NotFound) => (r matches Ok(t) && t.sent@.len() == 1
                    && final(card).same_durable(*old(card)) && (t.message matches Some(
                    Message::NfcCard { id, writeable },
                ) && id@ == id0 && writeable == (old(card).picc_key@ == zeros16()))),
                Some(IdentificationResponse::AuthenticationNeeded { id, key, challenge }) => if id@
                    != id0 {
                    (r matches Ok(t) && t.message is None && t.sent@.len() == 1 && *final(card)
                        == *old(card))
                } else {
                    match answer_outcome(*old(card), key@) {
                        Some(e) => r == Err::<IdentTranscript, CardError>(e)
                            && final(card).same_durable(*old(card)),
                        None => (r matches Ok(t) && t.sent@.len() == 2 && submits_response(
                            t.sent@[1],
                            id0,
                            challenge@,
                            response_of(stored_secret(*old(card)), challenge@),
                        ) && final_ident_message(server.after_secret, t.message)
                            && final(card).same_durable(*old(card))),
                    }
                },
                Some(IdentificationResponse::WriteKey { id, key, secret }) => if id@ != id0 {
                    (r matches Ok(t) && t.message is None && t.sent@.len() == 1 && *final(card)
                        == *old(card))
                } else if secret@.len() > u32::MAX {
                    r == Err::<IdentTranscript, CardError>(CardError::OutOfBounds) && *final(card)
                        == *old(card)
                } else if old(card).picc_key@ != zeros16() {
                    r == Err::<IdentTranscript, CardError>(CardError::AuthFailed)
                        && final(card).same_durable(*old(card))
                } else {
                    provisioned(*final(card), key@, secret@) && match server.after_provision {
                        Some(
                            IdentificationResponse::AuthenticationNeeded {
                                id: id2,
                                key: key2,
                                challenge: ch2,
                            },
                        ) => if id2@ != id0 {
                            (r matches Ok(t) && t.message is None && t.sent@.len() == 2
                                && identifies(t.sent@[1], id0))
                        } else if key2@ != key@ {
                            r == Err::<IdentTranscript, CardError>(CardError::AuthFailed)
                        } else {
                            (r matches Ok(t) && t.sent@.len() == 3 && identifies(t.sent@[1], id0)
                                && submits_response(
                                t.sent@[2],
                                id0,
                                ch2@,
                                response_of(secret@, ch2@),
                            ) && final_ident_message(server.after_secret, t.message))
                        },
                        _ => (r matches Ok(t) && t.message is None && t.sent@.len() == 2
                            && identifies(t.sent@[1], id0)),
                    }
                },
            }
        }),
{
    let card_id = card_identity(card);
    let mut sent: Vec<IdentificationRequest> = Vec::new();
    sent.push(IdentificationRequest::Nfc { id: copy_bytes(&card_id) });

    let first = match &server.first {
        Some(resp) => resp,
        None => {
            return Ok(IdentTranscript { sent, message: None });
        },
    };
    let (key, challenge) = match first {
        IdentificationResponse::Account { account } => {
            let message = Some(Message::Account { account: copy_bytes(account) });
            return Ok(IdentTranscript { sent, message });
        },
        IdentificationResponse::Product { product } => {
            let message = Some(Message::Product { product: copy_bytes(product) });
            return Ok(IdentTranscript { sent, message });
        },
        IdentificationResponse::NotFound => {
            let writeable = match is_writeable(card) {
                Ok(w) => w,
                Err(_) => false,
            };
            let message = Some(Message::NfcCard { id: card_id, writeable });
            return Ok(IdentTranscript { sent, message });
        },
        IdentificationResponse::AuthenticationNeeded { id, key, challenge } => {
            if !bytes_eq(id, &card_id) {
                return Ok(IdentTranscript { sent, message: None });
            }
            (copy_bytes(key), copy_bytes(challenge))
        },
        IdentificationResponse::WriteKey { id, key, secret } => {
            if !bytes_eq(id, &card_id) {
                return Ok(IdentTranscript { sent, message: None });
            }
            init_ascii_card(card, key, secret)?;
            proof {
                lemma_provision_result_provisioned(*old(card), *card, key@, secret@);
            }
            sent.push(IdentificationRequest::Nfc { id: copy_bytes(&card_id) });
            match &server.after_provision {
                Some(IdentificationResponse::AuthenticationNeeded { id, key, challenge }) => {
                    if !bytes_eq(id, &card_id) {
                        return Ok(IdentTranscript { sent, message: None });
                    }
                    (copy_bytes(key), copy_bytes(challenge))
                },
                _ => {
                    return Ok(IdentTranscript { sent, message: None });
                },
            }
        },
    };

    let ghost c_ready = *card;
    let response = match answer_challenge(card, &key, &challenge) {
        Ok(resp) => resp,
        Err(e) => {
            proof {
                if c_ready.has_app(ASCII_APPLICATION) {
                    lemma_app_at_same(c_ready, *card, ASCII_APPLICATION);
                }
            }
            return Err(e);
        },
    };
    proof {
        if c_ready.has_app(ASCII_APPLICATION) {
            lemma_app_at_same(c_ready, *card, ASCII_APPLICATION);
        }
    }
    sent.push(
        IdentificationRequest::NfcSecret {
            id: copy_bytes(&card_id),
            challenge: copy_bytes(&challenge),
            response,
        },
    );
    let message = match &server.after_secret {
        Some(IdentificationResponse::Account { account }) => Some(
            Message::Account { account: copy_bytes(account) },
        ),
        Some(IdentificationResponse::Product { product }) => Some(
            Message::Product { product: copy_bytes(product) },
        ),
        _ => None,
    };
    Ok(IdentTranscript { sent, message })
}

/// The request asks to authorize `amount` against the card by identity
/// alone.
pub open spec fn requests_payment(req: TokenRequest, amount: i32, id: Seq<u8>) -> bool {
    req.amount == amount && (req.method matches Authentication::Nfc { id: i } && i@ == id)
}

/// The request asks to authorize `amount` with `response` answering
/// `challenge` under the card identity.
pub open spec fn requests_payment_response(
    req: TokenRequest,
    amount: i32,
    id: Seq<u8>,
    challenge: Seq<u8>,
    response: Seq<u8>,
) -> bool {
    req.amount == amount && (req.method matches Authentication::NfcSecret {
        id: i,
        challenge: c,
        response: r,
    } && i@ == id && c@ == challenge && r@ == response)
}

/// The outcome a final payment reply maps to: an authorization delivers its
/// token; anything else, or no reply, is a silent abort.
pub open spec fn final_payment_message(reply: Option<TokenResponse>, m: Option<Message>) -> bool {
    match reply {
        Some(TokenResponse::Authorized { token }) => m matches Some(
            Message::PaymentToken { token: t },
        ) && t@ == token@,
        _ => m is None,
    }
}

/// Run one payment-authorization transaction for `amount`: request
/// authorization, and if the service demands proof of secret possession
/// for the locally presented card, answer its challenge and resubmit.
/// There is no provisioning branch: a card presented for payment is
/// assumed already provisioned.  A missing reply or a card-identity
/// mismatch aborts silently; card faults propagate.
pub fn handle_payment(card: &mut Card, server: &PaymentScript, amount: i32) -> (r: Result<
    PaymentTranscript,
    CardError,
>)
    requires
        old(card).wf(),
    ensures
        final(card).wf(),
        final(card).same_identity(*old(card)),
        r matches Ok(t) ==> t.sent@.len() >= 1 && requests_payment(
            t.sent@[0],
            amount,
            spec_card_identity(*old(card)),
        ),
        ({
            let id0 = spec_card_identity(*old(card));
            match server.first {
                None => (r matches Ok(t) && t.message is None && t.sent@.len() == 1 && *final(card)
                    == *old(card)),
                Some(TokenResponse::Authorized { .. }) => (r matches Ok(t)
                    && final_payment_message(server.first, t.message) && t.sent@.len() == 1
                    && *final(card) == *old(card)),
                Some(TokenResponse::AuthenticationNeeded { id, key, challenge }) => if id@ != id0 {
                    (r matches Ok(t) && t.message is None && t.sent@.len() == 1 && *final(card)
                        == *old(card))
                } else {
                    match answer_outcome(*old(card), key@) {
                        Some(e) => r == Err::<PaymentTranscript, CardError>(e)
                            && final(card).same_durable(*old(card)),
                        None => (r matches Ok(t) && t.sent@.len() == 2
                            && requests_payment_response(
                            t.sent@[1],
                            amount,
                            id0,
                            challenge@,
                            response_of(stored_secret(*old(card)), challenge@),
                        ) && final_payment_message(server.after_secret, t.message)
                            && final(card).same_durable(*old(card))),
                    }
                },
            }
        }),
{
    let card_id = card_identity(card);
    let mut sent: Vec<TokenRequest> = Vec::new();
    sent.push(
        TokenRequest { amount, method: Authentication::Nfc { id: copy_bytes(&card_id) } },
    );

    let first = match &server.first {
        Some(resp) => resp,
        None => {
            return Ok(PaymentTranscript { sent, message: None });
        },
    };
    let (key, challenge) = match first {
        TokenResponse::Authorized { token } => {
            let message = Some(Message::PaymentToken { token: copy_bytes(token) });
            return Ok(PaymentTranscript { sent, message });
        },
        TokenResponse::AuthenticationNeeded { id, key, challenge } => {
            if !bytes_eq(id, &card_id) {
                return Ok(PaymentTranscript { sent, message: None });
            }
            (copy_bytes(key), copy_bytes(challenge))
        },
    };

    let response = answer_challenge(card, &key, &challenge)?;
    sent.push(
        TokenRequest {
            amount,
            method: Authentication::NfcSecret {
                id: copy_bytes(&card_id),
                challenge: copy_bytes(&challenge),
                response,
            },
        },
    );
    let message = match &server.after_secret {
        Some(TokenResponse::Authorized { token }) => Some(
            Message::PaymentToken { token: copy_bytes(token) },
        ),
        _ => None,
    };
    Ok(PaymentTranscript { sent, message })
}

} // verus!
