//! The settings that the handshake consumes.

use vstd::prelude::*;
use crate::auth::reconnect_token::SigKey;
use crate::label::texts;
use crate::protocol::text_of;

verus! {

/// Server settings, loaded elsewhere.
#[derive(Debug)]
pub struct Config {
    /// The root domains under which hosts are granted; the first is the
    /// default.
    pub allowed_hosts: Vec<String>,
    /// Host labels that are never granted.
    pub blocked_sub_domains: Vec<String>,
    /// The shared secret of the single-secret authorization, if one is set.
    pub master_key: Option<String>,
    /// The key that signs reconnect tokens.
    pub master_sig_key: SigKey,
    /// The port on which instances query each other.
    pub internal_network_port: u16,
    /// The addresses of the other instances of the fleet; none where this
    /// instance is alone.
    pub instances: Vec<String>,
}

pub struct ConfigView {
    pub allowed_hosts: Seq<Seq<char>>,
    pub blocked_sub_domains: Seq<Seq<char>>,
    pub master_key: Option<Seq<char>>,
    pub master_sig_key: Seq<u8>,
    pub internal_network_port: u16,
    pub instances: Seq<Seq<char>>,
}

impl View for Config {
    type V = ConfigView;

    open spec fn view(&self) -> ConfigView {
        ConfigView {
            allowed_hosts: texts(self.allowed_hosts@),
            blocked_sub_domains: texts(self.blocked_sub_domains@),
            master_key: text_of(self.master_key),
            master_sig_key: self.master_sig_key@,
            internal_network_port: self.internal_network_port,
            instances: texts(self.instances@),
        }
    }
}

} // verus!
