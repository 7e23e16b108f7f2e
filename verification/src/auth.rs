//! Admission of new tunnel sessions: reconnect tokens, the authorization
//! decision and the handshake.

pub mod client_auth;
pub mod reconnect_token;
pub mod simple_auth;

use vstd::prelude::*;

verus! {

/// What an authorization backend says of a credential and a host label.
#[derive(Debug, Clone, Copy, PartialEq, Eq, Structural)]
pub enum AuthResult {
    ReservedByYou,
    ReservedByOther,
    ReservedByYouButDelinquent,
    PaymentRequired,
    Available,
}

} // verus!
