//! Authorization by one shared secret.

use vstd::prelude::*;
use crate::auth::AuthResult;
use crate::config::Config;
use crate::connected_clients::{ClientView, Connections, RegistryView};

verus! {

/// The backend that knows one secret and keeps no record of ownership.
#[derive(Debug, Clone, Copy)]
pub struct SimpleAuthService;

/// What the shared-secret backend decides: a credential that is not the
/// configured secret must pay; a label of which a hostname is filed at this
/// instance, under whatever root domain, belongs to someone else; any other
/// label is available.
pub open spec fn simple_decision(
    auth_key: Seq<char>,
    subdomain: Seq<char>,
    master_key: Option<Seq<char>>,
    reg: RegistryView,
) -> AuthResult {
    if master_key is Some && master_key->0 != auth_key {
        AuthResult::PaymentRequired
    } else if reg.label_filed(subdomain) {
        AuthResult::ReservedByOther
    } else {
        AuthResult::Available
    }
}

/// With a credential that passes, the label of any filed hostname is
/// reserved by someone else, and so is the label of a session once it is
/// filed, with the check or without.
pub proof fn lemma_filed_label_collides(
    auth_key: Seq<char>,
    master_key: Option<Seq<char>>,
    reg: RegistryView,
    h: Seq<char>,
    c: ClientView,
)
    requires
        master_key is None || master_key == Some(auth_key),
        reg.hosts.contains_key(h),
    ensures
        simple_decision(auth_key, reg.hosts[h].host, master_key, reg)
            == AuthResult::ReservedByOther,
        simple_decision(auth_key, c.host, master_key, reg.added(c))
            == AuthResult::ReservedByOther,
        reg.conflict(c) is None ==> simple_decision(
            auth_key,
            c.host,
            master_key,
            reg.claimed(c),
        ) == AuthResult::ReservedByOther,
{
    assert(reg.files_label_at(h, reg.hosts[h].host));
    assert(reg.added(c).files_label_at(c.full_host(), c.host));
    if reg.conflict(c) is None {
        assert(reg.claimed(c).files_label_at(c.full_host(), c.host));
    }
}

impl SimpleAuthService {
    /// Decides on a credential and a label. This backend never fails.
    pub fn auth_sub_domain(
        &self,
        auth_key: &String,
        subdomain: &str,
        config: &Config,
        connections: &Connections,
    ) -> (r: Result<AuthResult, ()>)
        ensures
            r == Ok::<AuthResult, ()>(
                simple_decision(auth_key@, subdomain@, config@.master_key, connections@),
            ),
    {
        match &config.master_key {
            Some(master_key) => {
                if *auth_key != *master_key {
                    return Ok(AuthResult::PaymentRequired);
                }
            },
            None => {},
        }
        if connections.label_in_use(subdomain) {
            return Ok(AuthResult::ReservedByOther);
        }
        Ok(AuthResult::Available)
    }
}

} // verus!
