//! Contactless-card identity and payment authorization protocol.
//!
//! A physical card carries a provisioned secret inside a dedicated card
//! application.  A remote service identifies cards and authorizes payments;
//! when it needs proof of secret possession it issues a challenge, and the
//! protocol answers it by reading the secret from the card and deriving a
//! response.  This crate holds the orchestration logic: card provisioning,
//! challenge-response, and the two protocol state machines (identification
//! and payment authorization), each verified against its contract.
//!
//! The physical card is modelled as an explicit [`card::Card`] state, so the
//! effect of every card command is part of each function's contract.  The
//! remote service is injected as a script of replies ([`server::IdentScript`],
//! [`server::PaymentScript`]); the orchestrators consume the replies in
//! protocol order and return a transcript of the requests they issued together
//! with the outcome they would deliver on the result channel.

pub mod bytes;
pub mod card;
pub mod protocol;
pub mod response;
pub mod server;
