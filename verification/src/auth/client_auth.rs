//! The handshake: from a client's opening message to a granted host or one
//! typed refusal.
//!
//! The handshake suspends in three places only: for the opening message,
//! for the answer of the other instances, and for the answer of the
//! authorization backend. Between them it decides; the caller does the
//! waiting and hands each answer in.

use vstd::prelude::*;
use crate::auth::AuthResult;
use crate::auth::reconnect_token::{
    frame_of, framable, lemma_flipped_bit_is_refused, minted, no_collision_with, verified,
    with_bit_flipped, PayloadView, ReconnectTokenPayload, SigKey, TokenError,
};
use crate::config::{Config, ConfigView};
use crate::connected_clients::{
    full_host_of, join_host, ClientView, Conflict, ConnectedClient, Connections, RegistryView,
};
use crate::label::{
    contains_text, is_label, lowercase, sanitize_sub_domain, sanitized, text_result, texts,
    LabelError,
};
use crate::protocol::{
    is_alphanumeric_text, text_of, ClientHello, ClientId, ClientType, ControlPacket, HelloView,
    ReconnectToken, ReplyView, SecretKey, ServerHello, CLIENT_ID_LEN, RANDOM_LABEL_LEN,
};
use futures::channel::mpsc::UnboundedSender;

verus! {

/// Why a handshake ends without a session.
#[derive(Debug, Clone, Copy, PartialEq, Eq, Structural)]
pub enum Rejection {
    /// No opening message came.
    NoHello,
    /// The opening message could not be decoded.
    UndecodableHello,
    /// The root domain asked for is not one of the allowed hosts.
    DomainNotAllowed,
    /// No root domain was asked for and none is configured.
    NoAllowedHosts,
    /// An anonymous client asked for a host.
    Anonymous,
    /// The label holds a character outside the label alphabet.
    InvalidLabel,
    /// The label is blocked.
    BlockedLabel,
    /// The hostname belongs to another client of this instance.
    HostInUse,
    /// Another instance serves the hostname for another client.
    HostInUseElsewhere,
    /// Another client holds the wildcard of the root domain.
    WildcardInUse,
    /// The reconnect token did not verify.
    BadToken(TokenError),
    /// The backend asks for payment.
    PaymentRequired,
    /// The backend says the label belongs to someone else.
    OwnedByOther,
    /// The backend failed.
    BackendFailed,
}

/// The classes of failure of a handshake.
#[derive(Debug, Clone, Copy, PartialEq, Eq, Structural)]
pub enum ErrorKind {
    Protocol,
    Misconfigured,
    Policy,
    Conflict,
    Auth,
    Backend,
}

impl Rejection {
    /// The reply that tells the client of this refusal; none where no
    /// opening message came.
    pub open spec fn reply_view(self) -> Option<ReplyView> {
        match self {
            Rejection::NoHello => None,
            Rejection::UndecodableHello
            | Rejection::Anonymous
            | Rejection::BadToken(_)
            | Rejection::PaymentRequired
            | Rejection::BackendFailed => Some(ReplyView::AuthFailed),
            Rejection::DomainNotAllowed | Rejection::InvalidLabel => Some(
                ReplyView::InvalidSubDomain,
            ),
            Rejection::BlockedLabel
            | Rejection::HostInUse
            | Rejection::HostInUseElsewhere
            | Rejection::WildcardInUse
            | Rejection::OwnedByOther => Some(ReplyView::SubDomainInUse),
            Rejection::NoAllowedHosts => Some(ReplyView::Error("Server misconfigured"@)),
        }
    }

    pub open spec fn kind_of(self) -> ErrorKind {
        match self {
            Rejection::NoHello | Rejection::UndecodableHello => ErrorKind::Protocol,
            Rejection::NoAllowedHosts => ErrorKind::Misconfigured,
            Rejection::DomainNotAllowed
            | Rejection::InvalidLabel
            | Rejection::BlockedLabel => ErrorKind::Policy,
            Rejection::HostInUse
            | Rejection::HostInUseElsewhere
            | Rejection::WildcardInUse
            | Rejection::OwnedByOther => ErrorKind::Conflict,
            Rejection::Anonymous
            | Rejection::BadToken(_)
            | Rejection::PaymentRequired => ErrorKind::Auth,
            Rejection::BackendFailed => ErrorKind::Backend,
        }
    }

    pub fn reply(&self) -> (r: Option<ServerHello>)
        ensures
            match r {
                Some(hello) => self.reply_view() == Some(hello@),
                None => self.reply_view() is None,
            },
    {
        match self {
            Rejection::NoHello => None,
            Rejection::UndecodableHello
            | Rejection::Anonymous
            | Rejection::BadToken(_)
            | Rejection::PaymentRequired
            | Rejection::BackendFailed => Some(ServerHello::AuthFailed),
            Rejection::DomainNotAllowed | Rejection::InvalidLabel => Some(
                ServerHello::InvalidSubDomain,
            ),
            Rejection::BlockedLabel
            | Rejection::HostInUse
            | Rejection::HostInUseElsewhere
            | Rejection::WildcardInUse
            | Rejection::OwnedByOther => Some(ServerHello::SubDomainInUse),
            Rejection::NoAllowedHosts => Some(
                ServerHello::Error(String::from_str("Server misconfigured")),
            ),
        }
    }

    pub fn kind(&self) -> (r: ErrorKind)
        ensures
            r == self.kind_of(),
    {
        match self {
            Rejection::NoHello | Rejection::UndecodableHello => ErrorKind::Protocol,
            Rejection::NoAllowedHosts => ErrorKind::Misconfigured,
            Rejection::DomainNotAllowed
            | Rejection::InvalidLabel
            | Rejection::BlockedLabel => ErrorKind::Policy,
            Rejection::HostInUse
            | Rejection::HostInUseElsewhere
            | Rejection::WildcardInUse
            | Rejection::OwnedByOther => ErrorKind::Conflict,
            Rejection::Anonymous
            | Rejection::BadToken(_)
            | Rejection::PaymentRequired => ErrorKind::Auth,
            Rejection::BackendFailed => ErrorKind::Backend,
        }
    }
}

/// The root domain of a handshake: the one asked for, if it is allowed;
/// the first allowed host, if none was asked for.
pub open spec fn resolved_domain(requested: Option<Seq<char>>, allowed: Seq<Seq<char>>) -> Result<
    Seq<char>,
    Rejection,
> {
    match requested {
        Some(d) => if allowed.contains(d) {
            Ok(d)
        } else {
            Err(Rejection::DomainNotAllowed)
        },
        None => if allowed.len() > 0 {
            Ok(allowed[0])
        } else {
            Err(Rejection::NoAllowedHosts)
        },
    }
}

pub fn resolve_domain(requested: &Option<String>, allowed_hosts: &Vec<String>) -> (r: Result<
    String,
    Rejection,
>)
    ensures
        text_result(r) == resolved_domain(text_of(*requested), texts(allowed_hosts@)),
{
    match requested {
        Some(d) => {
            if contains_text(allowed_hosts, d) {
                Ok(d.clone())
            } else {
                Err(Rejection::DomainNotAllowed)
            }
        },
        None => {
            if allowed_hosts.len() > 0 {
                Ok(allowed_hosts[0].clone())
            } else {
                Err(Rejection::NoAllowedHosts)
            }
        },
    }
}

/// What a finished handshake grants: the values of the session to be.
#[derive(Debug)]
pub struct ClientHandshake {
    pub id: ClientId,
    pub sub_domain: String,
    pub domain: String,
    pub is_anonymous: bool,
    pub wildcard: bool,
}

impl View for ClientHandshake {
    type V = ClientView;

    open spec fn view(&self) -> ClientView {
        ClientView {
            id: self.id@,
            host: self.sub_domain@,
            domain: self.domain@,
            is_anonymous: self.is_anonymous,
            wildcard: self.wildcard,
        }
    }
}

impl Clone for ClientHandshake {
    fn clone(&self) -> (r: Self)
        ensures
            r@ == self@,
    {
        ClientHandshake {
            id: self.id.clone(),
            sub_domain: self.sub_domain.clone(),
            domain: self.domain.clone(),
            is_anonymous: self.is_anonymous,
            wildcard: self.wildcard,
        }
    }
}

/// A handshake that waits for an answer: the credential and the grant it
/// is heading for.
#[derive(Debug)]
pub struct Pending {
    pub key: SecretKey,
    pub grant: ClientHandshake,
}

pub struct PendingView {
    pub key: Seq<char>,
    pub grant: ClientView,
}

impl View for Pending {
    type V = PendingView;

    open spec fn view(&self) -> PendingView {
        PendingView { key: self.key@, grant: self.grant@ }
    }
}

/// The state of one handshake. The first three states wait; the last two
/// are final. Everything between two waits happens in one step: decoding
/// aside, the first step settles the root domain, chooses the path, and
/// validates the label or verifies the token; the second weighs the answer
/// of the other instances and the wildcard; the third weighs the answer of
/// the backend.
#[derive(Debug)]
pub enum Handshake {
    /// Waiting for the opening message.
    AwaitingHello,
    /// Waiting for the other instances to say who serves the hostname.
    AwaitingCluster(Pending),
    /// Waiting for the authorization backend.
    AwaitingAuth(Pending),
    Accepted(ClientHandshake),
    Rejected(Rejection),
}

pub enum HandshakeView {
    AwaitingHello,
    AwaitingCluster(PendingView),
    AwaitingAuth(PendingView),
    Accepted(ClientView),
    Rejected(Rejection),
}

impl View for Handshake {
    type V = HandshakeView;

    open spec fn view(&self) -> HandshakeView {
        match self {
            Handshake::AwaitingHello => HandshakeView::AwaitingHello,
            Handshake::AwaitingCluster(p) => HandshakeView::AwaitingCluster(p@),
            Handshake::AwaitingAuth(p) => HandshakeView::AwaitingAuth(p@),
            Handshake::Accepted(g) => HandshakeView::Accepted(g@),
            Handshake::Rejected(e) => HandshakeView::Rejected(*e),
        }
    }
}

/// What came of reading the opening message.
#[derive(Debug)]
pub enum Opening {
    /// The peer sent nothing, or the transport failed.
    Missing,
    /// A message came that is no client hello.
    Undecodable,
    Hello(ClientHello),
}

pub enum OpeningView {
    Missing,
    Undecodable,
    Hello(HelloView),
}

impl View for Opening {
    type V = OpeningView;

    open spec fn view(&self) -> OpeningView {
        match self {
            Opening::Missing => OpeningView::Missing,
            Opening::Undecodable => OpeningView::Undecodable,
            Opening::Hello(h) => OpeningView::Hello(h@),
        }
    }
}

/// What the other instances said of a hostname.
#[derive(Debug)]
pub enum ClusterAnswer {
    /// An instance serves the hostname for this client.
    ServedBy(ClientId),
    /// No instance serves it.
    NotServed,
    /// The lookup itself failed.
    Failed,
}

pub enum ClusterAnswerView {
    ServedBy(Seq<char>),
    NotServed,
    Failed,
}

impl View for ClusterAnswer {
    type V = ClusterAnswerView;

    open spec fn view(&self) -> ClusterAnswerView {
        match self {
            ClusterAnswer::ServedBy(id) => ClusterAnswerView::ServedBy(id@),
            ClusterAnswer::NotServed => ClusterAnswerView::NotServed,
            ClusterAnswer::Failed => ClusterAnswerView::Failed,
        }
    }
}

/// What the authorization backend said.
#[derive(Debug, Clone, Copy, PartialEq, Eq, Structural)]
pub enum AuthAnswer {
    Decided(AuthResult),
    /// The backend reported an error.
    Failed,
}

/// The label that a request may go on with: the sanitized label, unless its
/// hostname belongs to another client of this instance.
pub open spec fn pre_validated(
    requested: Seq<char>,
    domain: Seq<char>,
    id: Seq<char>,
    blocked: Seq<Seq<char>>,
    reg: RegistryView,
) -> Result<Seq<char>, Rejection> {
    match sanitized(requested, blocked) {
        Err(LabelError::Invalid) => Err(Rejection::InvalidLabel),
        Err(LabelError::Blocked) => Err(Rejection::BlockedLabel),
        Ok(label) => if reg.host_held_by_other(full_host_of(label, domain), id) {
            Err(Rejection::HostInUse)
        } else {
            Ok(label)
        },
    }
}

/// What stands against a grant once the other instances have answered: an
/// instance that serves the hostname for another client, or, for a wildcard
/// grant, another client's wildcard. A failed lookup stands against nothing.
pub open spec fn concluded(answer: ClusterAnswerView, grant: ClientView, reg: RegistryView) -> Option<
    Rejection,
> {
    if answer matches ClusterAnswerView::ServedBy(owner) && owner != grant.id {
        Some(Rejection::HostInUseElsewhere)
    } else if grant.wildcard && reg.wildcard_held_by_other(grant.domain, grant.id) {
        Some(Rejection::WildcardInUse)
    } else {
        None
    }
}

/// The grant that a reconnect token leads to.
pub open spec fn reconnected(
    token: Seq<u8>,
    wildcard: bool,
    domain: Seq<char>,
    key: Seq<u8>,
    reg: RegistryView,
) -> Result<ClientView, Rejection> {
    match verified(token, key) {
        Err(e) => Err(Rejection::BadToken(e)),
        Ok(p) => if wildcard && reg.wildcard_held_by_other(domain, p.client_id) {
            Err(Rejection::WildcardInUse)
        } else {
            Ok(
                ClientView {
                    id: p.client_id,
                    host: p.sub_domain,
                    domain: domain,
                    is_anonymous: true,
                    wildcard: wildcard,
                },
            )
        },
    }
}

/// What stands against a grant once the backend has answered.
pub open spec fn authorized(answer: AuthAnswer) -> Option<Rejection> {
    match answer {
        AuthAnswer::Decided(AuthResult::Available)
        | AuthAnswer::Decided(AuthResult::ReservedByYou) => None,
        AuthAnswer::Decided(AuthResult::ReservedByYouButDelinquent)
        | AuthAnswer::Decided(AuthResult::PaymentRequired) => Some(Rejection::PaymentRequired),
        AuthAnswer::Decided(AuthResult::ReservedByOther) => Some(Rejection::OwnedByOther),
        AuthAnswer::Failed => Some(Rejection::BackendFailed),
    }
}

/// Where a request for the label `requested` goes.
pub open spec fn requested_path(
    requested: Seq<char>,
    key: Seq<char>,
    domain: Seq<char>,
    id: Seq<char>,
    wildcard: bool,
    cfg: ConfigView,
    reg: RegistryView,
) -> HandshakeView {
    match pre_validated(requested, domain, id, cfg.blocked_sub_domains, reg) {
        Err(e) => HandshakeView::Rejected(e),
        Ok(label) => HandshakeView::AwaitingCluster(
            PendingView {
                key: key,
                grant: ClientView {
                    id: id,
                    host: label,
                    domain: domain,
                    is_anonymous: false,
                    wildcard: wildcard,
                },
            },
        ),
    }
}

/// Where a decoded hello leads: the root domain is settled first, then an
/// anonymous client is turned away, then the path is chosen. A label that
/// was asked for is validated under the fresh id; without a label a token
/// is verified; without either the random label is validated.
pub open spec fn opened(
    hello: HelloView,
    fresh_id: Seq<char>,
    random_label: Seq<char>,
    cfg: ConfigView,
    reg: RegistryView,
) -> HandshakeView {
    match resolved_domain(hello.domain, cfg.allowed_hosts) {
        Err(e) => HandshakeView::Rejected(e),
        Ok(domain) => match hello.key {
            None => HandshakeView::Rejected(Rejection::Anonymous),
            Some(key) => match hello.sub_domain {
                Some(requested) => requested_path(
                    requested,
                    key,
                    domain,
                    fresh_id,
                    hello.wildcard,
                    cfg,
                    reg,
                ),
                None => match hello.reconnect_token {
                    Some(token) => match reconnected(
                        token,
                        hello.wildcard,
                        domain,
                        cfg.master_sig_key,
                        reg,
                    ) {
                        Err(e) => HandshakeView::Rejected(e),
                        Ok(grant) => HandshakeView::AwaitingAuth(
                            PendingView { key: key, grant: grant },
                        ),
                    },
                    None => requested_path(
                        random_label,
                        key,
                        domain,
                        fresh_id,
                        hello.wildcard,
                        cfg,
                        reg,
                    ),
                },
            },
        },
    }
}

/// Where the opening leads.
pub open spec fn began(
    opening: OpeningView,
    fresh_id: Seq<char>,
    random_label: Seq<char>,
    cfg: ConfigView,
    reg: RegistryView,
) -> HandshakeView {
    match opening {
        OpeningView::Missing => HandshakeView::Rejected(Rejection::NoHello),
        OpeningView::Undecodable => HandshakeView::Rejected(Rejection::UndecodableHello),
        OpeningView::Hello(hello) => opened(hello, fresh_id, random_label, cfg, reg),
    }
}

/// The view of a result that holds a grant.
pub open spec fn grant_result(r: Result<ClientHandshake, Rejection>) -> Result<
    ClientView,
    Rejection,
> {
    match r {
        Ok(g) => Ok(g@),
        Err(e) => Err(e),
    }
}

/// Sanitizes the requested label and checks that its hostname does not
/// belong to another client of this instance.
pub fn sanitize_sub_domain_and_pre_validate(
    requested_sub_domain: &str,
    domain: &str,
    client_id: &ClientId,
    config: &Config,
    connections: &Connections,
) -> (r: Result<String, Rejection>)
    ensures
        text_result(r) == pre_validated(
            requested_sub_domain@,
            domain@,
            client_id@,
            config@.blocked_sub_domains,
            connections@,
        ),
{
    let sub_domain = match sanitize_sub_domain(requested_sub_domain, &config.blocked_sub_domains) {
        Ok(label) => label,
        Err(LabelError::Invalid) => {
            return Err(Rejection::InvalidLabel);
        },
        Err(LabelError::Blocked) => {
            return Err(Rejection::BlockedLabel);
        },
    };
    let full_host = join_host(sub_domain.as_str(), domain);
    match connections.client_for_host(&full_host) {
        Some(owner) => {
            if !owner.same_as(client_id) {
                return Err(Rejection::HostInUse);
            }
        },
        None => {},
    }
    Ok(sub_domain)
}

/// Checks a grant against the answer of the other instances and, for a
/// wildcard grant, against the wildcard sessions of this instance.
pub fn conclude_pre_validation(
    answer: &ClusterAnswer,
    grant: &ClientHandshake,
    connections: &Connections,
) -> (r: Option<Rejection>)
    ensures
        r == concluded(answer@, grant@, connections@),
{
    match answer {
        ClusterAnswer::ServedBy(owner) => {
            if !owner.same_as(&grant.id) {
                return Some(Rejection::HostInUseElsewhere);
            }
        },
        _ => {},
    }
    if grant.wildcard && connections.wildcard_taken_by_other(grant.domain.as_str(), &grant.id) {
        return Some(Rejection::WildcardInUse);
    }
    None
}

/// Verifies a reconnect token and, for a wildcard request, checks the
/// wildcard sessions. The grant is for the client and the label that the
/// token binds, and is marked anonymous.
pub fn handle_reconnect_token(
    token: &ReconnectToken,
    wildcard: bool,
    domain: String,
    key: &SigKey,
    connections: &Connections,
) -> (r: Result<ClientHandshake, Rejection>)
    ensures
        grant_result(r) == reconnected(token@, wildcard, domain@, key@, connections@),
{
    let payload = match ReconnectTokenPayload::verify(token, key) {
        Ok(payload) => payload,
        Err(e) => {
            return Err(Rejection::BadToken(e));
        },
    };
    if wildcard && connections.wildcard_taken_by_other(domain.as_str(), &payload.client_id) {
        return Err(Rejection::WildcardInUse);
    }
    Ok(
        ClientHandshake {
            id: payload.client_id,
            sub_domain: payload.sub_domain,
            domain: domain,
            is_anonymous: true,
            wildcard: wildcard,
        },
    )
}

/// The decision on the backend's answer.
pub fn check_authorization(answer: AuthAnswer) -> (r: Option<Rejection>)
    ensures
        r == authorized(answer),
{
    match answer {
        AuthAnswer::Decided(AuthResult::Available)
        | AuthAnswer::Decided(AuthResult::ReservedByYou) => None,
        AuthAnswer::Decided(AuthResult::ReservedByYouButDelinquent)
        | AuthAnswer::Decided(AuthResult::PaymentRequired) => Some(Rejection::PaymentRequired),
        AuthAnswer::Decided(AuthResult::ReservedByOther) => Some(Rejection::OwnedByOther),
        AuthAnswer::Failed => Some(Rejection::BackendFailed),
    }
}

/// The first step of a handshake, from what came of reading the opening
/// message to the first wait or the end. `fresh_id` is the id of the new
/// connection; `random_label` is the label for a client that asks for none.
pub fn auth_client(
    opening: Opening,
    fresh_id: ClientId,
    random_label: String,
    config: &Config,
    connections: &Connections,
) -> (r: Handshake)
    ensures
        r@ == began(opening@, fresh_id@, random_label@, config@, connections@),
{
    let hello = match opening {
        Opening::Missing => {
            return Handshake::Rejected(Rejection::NoHello);
        },
        Opening::Undecodable => {
            return Handshake::Rejected(Rejection::UndecodableHello);
        },
        Opening::Hello(hello) => hello,
    };
    let ClientHello { sub_domain, client_type, reconnect_token, wildcard, domain } = hello;
    let domain = match resolve_domain(&domain, &config.allowed_hosts) {
        Ok(domain) => domain,
        Err(e) => {
            return Handshake::Rejected(e);
        },
    };
    let key = match client_type {
        ClientType::Anonymous => {
            return Handshake::Rejected(Rejection::Anonymous);
        },
        ClientType::Auth { key } => key,
    };
    let requested = match sub_domain {
        Some(requested) => requested,
        None => match reconnect_token {
            Some(token) => {
                return match handle_reconnect_token(
                    &token,
                    wildcard,
                    domain,
                    &config.master_sig_key,
                    connections,
                ) {
                    Ok(grant) => Handshake::AwaitingAuth(Pending { key, grant }),
                    Err(e) => Handshake::Rejected(e),
                };
            },
            None => random_label,
        },
    };
    match sanitize_sub_domain_and_pre_validate(
        requested.as_str(),
        domain.as_str(),
        &fresh_id,
        config,
        connections,
    ) {
        Ok(sub_domain) => Handshake::AwaitingCluster(
            Pending {
                key,
                grant: ClientHandshake {
                    id: fresh_id,
                    sub_domain,
                    domain,
                    is_anonymous: false,
                    wildcard,
                },
            },
        ),
        Err(e) => Handshake::Rejected(e),
    }
}

/// What a handshake is handed when it is woken.
#[derive(Debug)]
pub enum Event {
    /// Reading the opening message ended. `fresh_id` and `random_label` are
    /// the id and the label that the server drew for this connection.
    Opened { opening: Opening, fresh_id: ClientId, random_label: String },
    /// The other instances answered.
    Cluster(ClusterAnswer),
    /// The authorization backend answered.
    Auth(AuthAnswer),
}

pub enum EventView {
    Opened { opening: OpeningView, fresh_id: Seq<char>, random_label: Seq<char> },
    Cluster(ClusterAnswerView),
    Auth(AuthAnswer),
}

impl View for Event {
    type V = EventView;

    open spec fn view(&self) -> EventView {
        match self {
            Event::Opened { opening, fresh_id, random_label } => EventView::Opened {
                opening: opening@,
                fresh_id: fresh_id@,
                random_label: random_label@,
            },
            Event::Cluster(a) => EventView::Cluster(a@),
            Event::Auth(a) => EventView::Auth(*a),
        }
    }
}

/// What the caller is to do for a handshake in a given state.
#[derive(Debug)]
pub enum Action {
    /// Read the opening message.
    ReadHello,
    /// Ask the other instances who serves this hostname.
    QueryCluster { full_host: String },
    /// Ask the authorization backend about this credential and label.
    Authorize { key: SecretKey, sub_domain: String },
    /// File the session and confirm it to the client.
    Register(ClientHandshake),
    /// Send this one reply and end the connection.
    Reply(ServerHello),
    /// End the connection without a reply.
    Close,
}

pub enum ActionView {
    ReadHello,
    QueryCluster { full_host: Seq<char> },
    Authorize { key: Seq<char>, sub_domain: Seq<char> },
    Register(ClientView),
    Reply(ReplyView),
    Close,
}

impl View for Action {
    type V = ActionView;

    open spec fn view(&self) -> ActionView {
        match self {
            Action::ReadHello => ActionView::ReadHello,
            Action::QueryCluster { full_host } => ActionView::QueryCluster {
                full_host: full_host@,
            },
            Action::Authorize { key, sub_domain } => ActionView::Authorize {
                key: key@,
                sub_domain: sub_domain@,
            },
            Action::Register(g) => ActionView::Register(g@),
            Action::Reply(r) => ActionView::Reply(r@),
            Action::Close => ActionView::Close,
        }
    }
}

/// The state after an event. An event that the state does not wait for
/// changes nothing; the final states never change.
pub open spec fn stepped(
    state: HandshakeView,
    event: EventView,
    cfg: ConfigView,
    reg: RegistryView,
) -> HandshakeView {
    match (state, event) {
        (HandshakeView::AwaitingHello, EventView::Opened { opening, fresh_id, random_label }) => began(
            opening,
            fresh_id,
            random_label,
            cfg,
            reg,
        ),
        (HandshakeView::AwaitingCluster(p), EventView::Cluster(a)) => match concluded(
            a,
            p.grant,
            reg,
        ) {
            Some(e) => HandshakeView::Rejected(e),
            None => HandshakeView::AwaitingAuth(p),
        },
        (HandshakeView::AwaitingAuth(p), EventView::Auth(a)) => match authorized(a) {
            Some(e) => HandshakeView::Rejected(e),
            None => HandshakeView::Accepted(p.grant),
        },
        _ => state,
    }
}

/// What is to be done in a state.
pub open spec fn action_of(state: HandshakeView) -> ActionView {
    match state {
        HandshakeView::AwaitingHello => ActionView::ReadHello,
        HandshakeView::AwaitingCluster(p) => ActionView::QueryCluster {
            full_host: p.grant.full_host(),
        },
        HandshakeView::AwaitingAuth(p) => ActionView::Authorize {
            key: p.key,
            sub_domain: p.grant.host,
        },
        HandshakeView::Accepted(g) => ActionView::Register(g),
        HandshakeView::Rejected(e) => match e.reply_view() {
            Some(r) => ActionView::Reply(r),
            None => ActionView::Close,
        },
    }
}

impl Handshake {
    /// Takes the handshake one event further.
    pub fn step(self, event: Event, config: &Config, connections: &Connections) -> (r: Handshake)
        ensures
            r@ == stepped(self@, event@, config@, connections@),
    {
        match (self, event) {
            (Handshake::AwaitingHello, Event::Opened { opening, fresh_id, random_label }) => {
                auth_client(opening, fresh_id, random_label, config, connections)
            },
            (Handshake::AwaitingCluster(p), Event::Cluster(a)) => {
                match conclude_pre_validation(&a, &p.grant, connections) {
                    Some(e) => Handshake::Rejected(e),
                    None => Handshake::AwaitingAuth(p),
                }
            },
            (Handshake::AwaitingAuth(p), Event::Auth(a)) => {
                match check_authorization(a) {
                    Some(e) => Handshake::Rejected(e),
                    None => Handshake::Accepted(p.grant),
                }
            },
            (state, _) => state,
        }
    }

    /// What the caller is to do next.
    pub fn action(&self) -> (r: Action)
        ensures
            r@ == action_of(self@),
    {
        match self {
            Handshake::AwaitingHello => Action::ReadHello,
            Handshake::AwaitingCluster(p) => Action::QueryCluster {
                full_host: join_host(p.grant.sub_domain.as_str(), p.grant.domain.as_str()),
            },
            Handshake::AwaitingAuth(p) => Action::Authorize {
                key: p.key.clone(),
                sub_domain: p.grant.sub_domain.clone(),
            },
            Handshake::Accepted(g) => Action::Register(g.clone()),
            Handshake::Rejected(e) => match e.reply() {
                Some(r) => Action::Reply(r),
                None => Action::Close,
            },
        }
    }

    /// Whether the handshake has ended.
    pub fn is_final(&self) -> (r: bool)
        ensures
            r == (self@ is Accepted || self@ is Rejected),
    {
        match self {
            Handshake::Accepted(_) | Handshake::Rejected(_) => true,
            _ => false,
        }
    }
}

/// The first step of a handshake with an id and a label drawn here: what
/// `auth_client` gives for some fresh id of letters and digits and some
/// random label.
pub fn auth_client_handshake(
    opening: Opening,
    config: &Config,
    connections: &Connections,
) -> (r: Handshake)
    ensures
        exists|id: Seq<char>, label: Seq<char>|
            is_alphanumeric_text(id, CLIENT_ID_LEN as nat) && label.len() == RANDOM_LABEL_LEN
                && is_label(label)
                && r@ == #[trigger] began(opening@, id, label, config@, connections@),
{
    let fresh_id = ClientId::generate();
    let random_label = ServerHello::random_domain();
    auth_client(opening, fresh_id, random_label, config, connections)
}

/// The refusal that a conflict in the registry leads to.
pub open spec fn refusal_of(c: Conflict) -> Rejection {
    match c {
        Conflict::HostInUse => Rejection::HostInUse,
        Conflict::WildcardInUse => Rejection::WildcardInUse,
    }
}

/// The view of a result that holds a session.
pub open spec fn session_result(r: Result<ConnectedClient, Rejection>) -> Result<
    ClientView,
    Rejection,
> {
    match r {
        Ok(c) => Ok(c@),
        Err(e) => Err(e),
    }
}

/// What filing a grant gives: the session, unless something stands in its
/// way in the registry.
pub open spec fn registered(grant: ClientView, reg: RegistryView) -> Result<ClientView, Rejection> {
    match reg.conflict(grant) {
        Some(c) => Err(refusal_of(c)),
        None => Ok(grant),
    }
}

/// Makes the session of a grant and files it, in one step with the check
/// that its hostname, and for a wildcard grant the wildcard of its domain,
/// is not another client's. On a refusal the registry is unchanged.
pub fn register(
    grant: ClientHandshake,
    tx: UnboundedSender<ControlPacket>,
    connections: &mut Connections,
) -> (r: Result<ConnectedClient, Rejection>)
    ensures
        session_result(r) == registered(grant@, old(connections)@),
        r is Ok ==> r->Ok_0.tx == tx,
        final(connections)@ == old(connections)@.claimed(grant@),
        r is Err ==> final(connections)@ == old(connections)@,
        old(connections)@.wf() ==> final(connections)@.wf(),
{
    let client = ConnectedClient {
        id: grant.id,
        host: grant.sub_domain,
        domain: grant.domain,
        is_anonymous: grant.is_anonymous,
        wildcard: grant.wildcard,
        tx: tx,
    };
    match connections.claim(client.clone()) {
        Ok(_) => Ok(client),
        Err(Conflict::HostInUse) => Err(Rejection::HostInUse),
        Err(Conflict::WildcardInUse) => Err(Rejection::WildcardInUse),
    }
}

/// The reply that confirms a session to its client.
pub fn welcome(client: &ConnectedClient) -> (r: ServerHello)
    ensures
        r@ == (ReplyView::Success {
            sub_domain: client@.host,
            hostname: client@.full_host(),
            client_id: client@.id,
        }),
{
    ServerHello::Success {
        sub_domain: client.host.clone(),
        hostname: client.full_host(),
        client_id: client.id.clone(),
    }
}

/// A client with a credential that asks for a label whose lowercase fold
/// holds a character outside `a`-`z`, `0`-`9`, `-` is refused with
/// `InvalidSubDomain`, whatever the token, the wildcard flag, the blocked
/// labels and the registry are, once its root domain is settled.
pub proof fn lemma_invalid_label_is_refused(
    hello: HelloView,
    fresh_id: Seq<char>,
    random_label: Seq<char>,
    cfg: ConfigView,
    reg: RegistryView,
)
    requires
        resolved_domain(hello.domain, cfg.allowed_hosts) is Ok,
        hello.key is Some,
        hello.sub_domain is Some,
        !is_label(lowercase(hello.sub_domain->0)),
    ensures
        opened(hello, fresh_id, random_label, cfg, reg) == HandshakeView::Rejected(
            Rejection::InvalidLabel,
        ),
        action_of(opened(hello, fresh_id, random_label, cfg, reg)) == ActionView::Reply(
            ReplyView::InvalidSubDomain,
        ),
{
}

/// An anonymous client is refused with `AuthFailed`, whatever label, token
/// and wildcard flag it sends, once its root domain is settled; and it is
/// refused in any case.
pub proof fn lemma_anonymous_is_refused(
    hello: HelloView,
    fresh_id: Seq<char>,
    random_label: Seq<char>,
    cfg: ConfigView,
    reg: RegistryView,
)
    requires
        hello.key is None,
    ensures
        opened(hello, fresh_id, random_label, cfg, reg) is Rejected,
        resolved_domain(hello.domain, cfg.allowed_hosts) is Ok ==> opened(
            hello,
            fresh_id,
            random_label,
            cfg,
            reg,
        ) == HandshakeView::Rejected(Rejection::Anonymous) && action_of(
            opened(hello, fresh_id, random_label, cfg, reg),
        ) == ActionView::Reply(ReplyView::AuthFailed),
{
}

/// A reconnect with the wildcard flag, by a token that verifies, against a
/// root domain whose wildcard another client holds is refused with
/// `SubDomainInUse`.
pub proof fn lemma_reconnect_respects_wildcard(
    token: Seq<u8>,
    domain: Seq<char>,
    key: Seq<u8>,
    reg: RegistryView,
)
    requires
        verified(token, key) is Ok,
        reg.wildcard_held_by_other(domain, verified(token, key)->Ok_0.client_id),
    ensures
        reconnected(token, true, domain, key, reg) == Err::<ClientView, Rejection>(
            Rejection::WildcardInUse,
        ),
        Rejection::WildcardInUse.reply_view() == Some(ReplyView::SubDomainInUse),
{
}

/// Of two grants of different clients for the same hostname, filed one
/// after the other, the second is refused as in use whenever the first was
/// filed, and the registry then still holds the first.
pub proof fn lemma_one_registration_wins(reg: RegistryView, a: ClientView, b: ClientView)
    requires
        a.full_host() == b.full_host(),
        a.id != b.id,
        registered(a, reg) is Ok,
    ensures
        registered(b, reg.claimed(a)) == Err::<ClientView, Rejection>(Rejection::HostInUse),
        reg.claimed(a).claimed(b) == reg.claimed(a),
        reg.claimed(a).hosts[a.full_host()] == a,
{
}

/// Where a handshake ends if no other instance serves its hostname and the
/// backend finds its label available.
pub open spec fn ran_unopposed(
    hello: HelloView,
    fresh_id: Seq<char>,
    random_label: Seq<char>,
    cfg: ConfigView,
    reg: RegistryView,
) -> HandshakeView {
    stepped(
        stepped(
            opened(hello, fresh_id, random_label, cfg, reg),
            EventView::Cluster(ClusterAnswerView::NotServed),
            cfg,
            reg,
        ),
        EventView::Auth(AuthAnswer::Decided(AuthResult::Available)),
        cfg,
        reg,
    )
}

/// Two handshakes under different ids that ask for the same label and root
/// domain, and that each run unopposed to a grant on the same registry, are
/// for one hostname; filed one after the other, the first grant is filed,
/// the second is refused with `SubDomainInUse` and changes nothing, and the
/// hostname stays with the first. The two may be taken in either order.
pub proof fn lemma_two_handshakes_one_host(
    first: HelloView,
    second: HelloView,
    first_id: Seq<char>,
    second_id: Seq<char>,
    first_random: Seq<char>,
    second_random: Seq<char>,
    cfg: ConfigView,
    reg: RegistryView,
)
    requires
        first_id != second_id,
        first.sub_domain is Some,
        second.sub_domain == first.sub_domain,
        second.domain == first.domain,
        ran_unopposed(first, first_id, first_random, cfg, reg) is Accepted,
        ran_unopposed(second, second_id, second_random, cfg, reg) is Accepted,
    ensures
        ({
            let a = ran_unopposed(first, first_id, first_random, cfg, reg)->Accepted_0;
            let b = ran_unopposed(second, second_id, second_random, cfg, reg)->Accepted_0;
            &&& a.id == first_id && b.id == second_id
            &&& a.full_host() == b.full_host()
            &&& registered(a, reg) == Ok::<ClientView, Rejection>(a)
            &&& registered(b, reg.claimed(a)) == Err::<ClientView, Rejection>(
                Rejection::HostInUse,
            )
            &&& Rejection::HostInUse.reply_view() == Some(ReplyView::SubDomainInUse)
            &&& reg.claimed(a).claimed(b).hosts.contains_key(a.full_host())
            &&& reg.claimed(a).claimed(b).hosts[a.full_host()] == a
            &&& reg.claimed(a).claimed(b) == reg.claimed(a)
        }),
{
}

/// A reconnect token with one bit flipped fails authentication, whatever
/// the wildcard flag, the root domain and the registry are, unless the
/// flipped bytes stand on a collision of tags with the token's frame.
pub proof fn lemma_flipped_token_fails_authentication(
    p: PayloadView,
    key: Seq<u8>,
    at: int,
    bit: u8,
    wildcard: bool,
    domain: Seq<char>,
    reg: RegistryView,
)
    requires
        framable(p),
        0 <= at < minted(p, key).len(),
        bit < 8,
        no_collision_with(with_bit_flipped(minted(p, key), at, bit), key, frame_of(p)),
    ensures
        ({
            let r = reconnected(
                with_bit_flipped(minted(p, key), at, bit),
                wildcard,
                domain,
                key,
                reg,
            );
            &&& r is Err
            &&& r->Err_0 is BadToken
            &&& r->Err_0.reply_view() == Some(ReplyView::AuthFailed)
        }),
{
    lemma_flipped_bit_is_refused(p, key, at, bit);
}

/// A lookup that failed stands against a grant no more than one that found
/// no instance: a failure of the fleet never refuses a client by itself.
pub proof fn lemma_failed_lookup_is_tolerated(grant: ClientView, reg: RegistryView)
    ensures
        concluded(ClusterAnswerView::Failed, grant, reg) == concluded(
            ClusterAnswerView::NotServed,
            grant,
            reg,
        ),
        concluded(ClusterAnswerView::Failed, grant, reg) != Some(Rejection::HostInUseElsewhere),
{
}

/// A client that another instance already serves under another id is
/// refused, whatever else holds.
pub proof fn lemma_foreign_owner_is_honored(
    owner: Seq<char>,
    grant: ClientView,
    reg: RegistryView,
)
    requires
        owner != grant.id,
    ensures
        concluded(ClusterAnswerView::ServedBy(owner), grant, reg) == Some(
            Rejection::HostInUseElsewhere,
        ),
{
}

/// Every refusal but that of a missing opening message has exactly one
/// reply, and a handshake that has ended asks for nothing more than that
/// reply, the filing of the session, or the end of the connection.
pub proof fn lemma_one_outcome(state: HandshakeView)
    requires
        state is Accepted || state is Rejected,
    ensures
        action_of(state) is Register || action_of(state) is Reply || action_of(state) is Close,
        action_of(state) is Close <==> state == HandshakeView::Rejected(Rejection::NoHello),
        action_of(state) is Register <==> state is Accepted,
{
}

/// A final state stays as it is, whatever comes.
pub proof fn lemma_final_states_stay(
    state: HandshakeView,
    event: EventView,
    cfg: ConfigView,
    reg: RegistryView,
)
    requires
        state is Accepted || state is Rejected,
    ensures
        stepped(state, event, cfg, reg) == state,
{
}

} // verus!
