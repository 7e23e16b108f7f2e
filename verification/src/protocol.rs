//! Values exchanged between a tunnel client and the server.

use vstd::prelude::*;
use rand::distributions::{Alphanumeric, DistString};
use crate::label::{is_label, is_label_char, to_ascii_lowercase};

verus! {

/// An ASCII letter or digit.
pub open spec fn is_alphanumeric_char(c: char) -> bool {
    ('a' <= c && c <= 'z') || ('A' <= c && c <= 'Z') || ('0' <= c && c <= '9')
}

/// Text of `len` ASCII letters and digits.
pub open spec fn is_alphanumeric_text(s: Seq<char>, len: nat) -> bool {
    s.len() == len && forall|i: int| 0 <= i < s.len() ==> is_alphanumeric_char(#[trigger] s[i])
}

/// `Alphanumeric.sample_string` of the crate rand, on the generator of the
/// calling thread: `len` characters, each an ASCII letter or digit. Which
/// ones is left open. The generator fails only where the system gives it no
/// seed.
#[verifier::external_body]
fn random_alphanumeric(len: usize) -> (r: String)
    ensures
        is_alphanumeric_text(r@, len as nat),
{
    Alphanumeric.sample_string(&mut rand::thread_rng(), len)
}

/// Opaque unique identifier of a tunnel session.
#[derive(Debug)]
pub struct ClientId(pub String);

impl View for ClientId {
    type V = Seq<char>;

    open spec fn view(&self) -> Seq<char> {
        self.0@
    }
}

impl Clone for ClientId {
    fn clone(&self) -> (r: Self)
        ensures
            r@ == self@,
    {
        ClientId(self.0.clone())
    }
}

/// The number of characters of a generated client id.
pub const CLIENT_ID_LEN: usize = 32;

/// The number of characters of a generated host label.
pub const RANDOM_LABEL_LEN: usize = 8;

impl ClientId {
    /// A fresh identifier for a new connection: random letters and digits.
    pub fn generate() -> (r: ClientId)
        ensures
            is_alphanumeric_text(r@, CLIENT_ID_LEN as nat),
    {
        ClientId(random_alphanumeric(CLIENT_ID_LEN))
    }

    /// Whether two identifiers name the same session.
    pub fn same_as(&self, other: &ClientId) -> (r: bool)
        ensures
            r == (self@ == other@),
    {
        self.0 == other.0
    }
}

/// The credential with which a client authenticates.
#[derive(Debug)]
pub struct SecretKey(pub String);

impl View for SecretKey {
    type V = Seq<char>;

    open spec fn view(&self) -> Seq<char> {
        self.0@
    }
}

impl Clone for SecretKey {
    fn clone(&self) -> (r: Self)
        ensures
            r@ == self@,
    {
        SecretKey(self.0.clone())
    }
}

/// Opaque signed blob that lets a client resume a host it was granted.
#[derive(Debug)]
pub struct ReconnectToken(pub Vec<u8>);

impl View for ReconnectToken {
    type V = Seq<u8>;

    open spec fn view(&self) -> Seq<u8> {
        self.0@
    }
}

impl Clone for ReconnectToken {
    fn clone(&self) -> (r: Self)
        ensures
            r@ == self@,
    {
        ReconnectToken(self.0.clone())
    }
}

/// Identifier of one proxied stream on the control channel.
#[derive(Debug, Clone, Copy)]
pub struct StreamId(pub [u8; 8]);

/// A message pushed to a client over its control channel.
#[derive(Debug)]
pub enum ControlPacket {
    Init(StreamId),
    Data(StreamId, Vec<u8>),
    Refused(StreamId),
    End(StreamId),
    Ping(Option<ReconnectToken>),
}

/// Who the client says it is.
#[derive(Debug)]
pub enum ClientType {
    Auth { key: SecretKey },
    Anonymous,
}

/// The opening message of a client.
#[derive(Debug)]
pub struct ClientHello {
    /// The host label the client asks for.
    pub sub_domain: Option<String>,
    pub client_type: ClientType,
    pub reconnect_token: Option<ReconnectToken>,
    pub wildcard: bool,
    /// The root domain the client asks for.
    pub domain: Option<String>,
}

/// What the handshake reads of an opening message. `key` is absent for an
/// anonymous client.
pub struct HelloView {
    pub sub_domain: Option<Seq<char>>,
    pub key: Option<Seq<char>>,
    pub reconnect_token: Option<Seq<u8>>,
    pub wildcard: bool,
    pub domain: Option<Seq<char>>,
}

/// The text of an optional string.
pub open spec fn text_of(s: Option<String>) -> Option<Seq<char>> {
    match s {
        Some(s) => Some(s@),
        None => None,
    }
}

impl View for ClientHello {
    type V = HelloView;

    open spec fn view(&self) -> HelloView {
        HelloView {
            sub_domain: text_of(self.sub_domain),
            key: match self.client_type {
                ClientType::Auth { key } => Some(key@),
                ClientType::Anonymous => None,
            },
            reconnect_token: match self.reconnect_token {
                Some(t) => Some(t@),
                None => None,
            },
            wildcard: self.wildcard,
            domain: text_of(self.domain),
        }
    }
}

/// The one reply of the server to an opening message.
#[derive(Debug)]
pub enum ServerHello {
    Success { sub_domain: String, hostname: String, client_id: ClientId },
    SubDomainInUse,
    InvalidSubDomain,
    AuthFailed,
    Error(String),
}

pub enum ReplyView {
    Success { sub_domain: Seq<char>, hostname: Seq<char>, client_id: Seq<char> },
    SubDomainInUse,
    InvalidSubDomain,
    AuthFailed,
    Error(Seq<char>),
}

impl View for ServerHello {
    type V = ReplyView;

    open spec fn view(&self) -> ReplyView {
        match self {
            ServerHello::Success { sub_domain, hostname, client_id } => ReplyView::Success {
                sub_domain: sub_domain@,
                hostname: hostname@,
                client_id: client_id@,
            },
            ServerHello::SubDomainInUse => ReplyView::SubDomainInUse,
            ServerHello::InvalidSubDomain => ReplyView::InvalidSubDomain,
            ServerHello::AuthFailed => ReplyView::AuthFailed,
            ServerHello::Error(message) => ReplyView::Error(message@),
        }
    }
}

impl ServerHello {
    /// A host label for a client that asked for none: random lowercase
    /// letters and digits.
    pub fn random_domain() -> (r: String)
        ensures
            r@.len() == RANDOM_LABEL_LEN,
            is_label(r@),
    {
        let raw = random_alphanumeric(RANDOM_LABEL_LEN);
        let r = to_ascii_lowercase(raw.as_str());
        assert forall|i: int| 0 <= i < r@.len() implies is_label_char(#[trigger] r@[i]) by {
            assert(is_alphanumeric_char(raw@[i]));
        }
        r
    }
}

} // verus!
