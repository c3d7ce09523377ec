//! Requests to and replies from the remote identity/authorization service,
//! and the outcomes delivered on the result channel.
//!
//! The service is a collaborator that only answers: the protocol injects its
//! replies as a script, one optional reply per request the protocol can
//! issue, with `None` standing for "no response" (network unreachable).  The
//! orchestrators return a transcript: the requests they issued, in order,
//! and the outcome they would deliver, if any.

use vstd::prelude::*;

verus! {

/// One identification request to the remote service.
#[derive(Debug)]
pub enum IdentificationRequest {
    /// Identify by card identity alone.
    Nfc { id: Vec<u8> },
    /// Answer an issued challenge with a response derived from the card's
    /// secret.
    NfcSecret { id: Vec<u8>, challenge: Vec<u8>, response: Vec<u8> },
}

/// One reply of the remote service to an identification request.
#[derive(Debug)]
pub enum IdentificationResponse {
    /// The card resolves to an account.
    Account { account: Vec<u8> },
    /// The card resolves to a product.
    Product { product: Vec<u8> },
    /// The card is unknown to the service.
    NotFound,
    /// The service needs proof of secret possession for this card.
    AuthenticationNeeded { id: Vec<u8>, key: Vec<u8>, challenge: Vec<u8> },
    /// The service wants the card provisioned with this key and secret.
    WriteKey { id: Vec<u8>, key: Vec<u8>, secret: Vec<u8> },
}

/// How a payment request authenticates the card.
#[derive(Debug)]
pub enum Authentication {
    /// By card identity alone.
    Nfc { id: Vec<u8> },
    /// By an answered challenge.
    NfcSecret { id: Vec<u8>, challenge: Vec<u8>, response: Vec<u8> },
}

/// One payment-authorization request to the remote service.
#[derive(Debug)]
pub struct TokenRequest {
    pub amount: i32,
    pub method: Authentication,
}

/// One reply of the remote service to a payment-authorization request.
#[derive(Debug)]
pub enum TokenResponse {
    /// The payment is authorized under this token.
    Authorized { token: Vec<u8> },
    /// The service needs proof of secret possession for this card.
    AuthenticationNeeded { id: Vec<u8>, key: Vec<u8>, challenge: Vec<u8> },
}

/// A terminal outcome, delivered on the result channel; at most one per
/// transaction.
#[derive(Debug)]
pub enum Message {
    /// The card resolved to an account.
    Account { account: Vec<u8> },
    /// The card resolved to a product.
    Product { product: Vec<u8> },
    /// The card stayed unresolved; `writeable` reports whether a write probe
    /// of the root context succeeded.
    NfcCard { id: Vec<u8>, writeable: bool },
    /// A payment was authorized under this token.
    PaymentToken { token: Vec<u8> },
}

/// The remote service's replies for one identification transaction, in the
/// order the protocol can ask: the first identify, the re-identify after
/// provisioning, and the reply to the submitted challenge response.  `None`
/// is "no response".
#[derive(Debug)]
pub struct IdentScript {
    pub first: Option<IdentificationResponse>,
    pub after_provision: Option<IdentificationResponse>,
    pub after_secret: Option<IdentificationResponse>,
}

/// The remote service's replies for one payment transaction: the first
/// authorization request, and the reply to the submitted challenge
/// response.  `None` is "no response".
#[derive(Debug)]
pub struct PaymentScript {
    pub first: Option<TokenResponse>,
    pub after_secret: Option<TokenResponse>,
}

/// What one identification transaction did: the requests issued, in order,
/// and the outcome delivered, if any.
#[derive(Debug)]
pub struct IdentTranscript {
    pub sent: Vec<IdentificationRequest>,
    pub message: Option<Message>,
}

/// What one payment transaction did: the requests issued, in order, and the
/// outcome delivered, if any.
#[derive(Debug)]
pub struct PaymentTranscript {
    pub sent: Vec<TokenRequest>,
    pub message: Option<Message>,
}

} // verus!
