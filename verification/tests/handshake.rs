use futures::channel::mpsc::{unbounded, UnboundedReceiver, UnboundedSender};
use neutun_control::auth::client_auth::{
    auth_client, auth_client_handshake, check_authorization, conclude_pre_validation,
    handle_reconnect_token, register, resolve_domain, sanitize_sub_domain_and_pre_validate,
    welcome, Action, AuthAnswer, ClientHandshake, ClusterAnswer, ErrorKind, Event, Handshake,
    Opening, Rejection,
};
use neutun_control::auth::reconnect_token::{ReconnectTokenPayload, SigKey, TokenError};
use neutun_control::auth::AuthResult;
use neutun_control::config::Config;
use neutun_control::connected_clients::{ConnectedClient, Connections};
use neutun_control::protocol::{
    ClientHello, ClientId, ClientType, ControlPacket, ReconnectToken, SecretKey, ServerHello,
};

fn config() -> Config {
    Config {
        allowed_hosts: vec!["example.com".to_string(), "example.org".to_string()],
        blocked_sub_domains: vec!["www".to_string()],
        master_key: Some("secret".to_string()),
        master_sig_key: SigKey(b"signing key".to_vec()),
        internal_network_port: 6000,
        instances: vec![],
    }
}

fn channel() -> (UnboundedSender<ControlPacket>, UnboundedReceiver<ControlPacket>) {
    unbounded::<ControlPacket>()
}

fn hello(label: Option<&str>) -> ClientHello {
    ClientHello {
        sub_domain: label.map(|s| s.to_string()),
        client_type: ClientType::Auth { key: SecretKey("secret".to_string()) },
        reconnect_token: None,
        wildcard: false,
        domain: None,
    }
}

fn anonymous(label: Option<&str>) -> ClientHello {
    ClientHello { client_type: ClientType::Anonymous, ..hello(label) }
}

fn session(id: &str, host: &str, domain: &str, wildcard: bool) -> ConnectedClient {
    let (tx, _rx) = channel();
    ConnectedClient {
        id: ClientId(id.to_string()),
        host: host.to_string(),
        domain: domain.to_string(),
        is_anonymous: false,
        wildcard,
        tx,
    }
}

fn begin(h: ClientHello, reg: &Connections) -> Handshake {
    auth_client(
        Opening::Hello(h),
        ClientId("fresh".to_string()),
        "rnd12345".to_string(),
        &config(),
        reg,
    )
}

fn rejection(h: &Handshake) -> Rejection {
    match h {
        Handshake::Rejected(e) => *e,
        other => panic!("not rejected: {:?}", other),
    }
}

fn reply_of(h: &Handshake) -> ServerHello {
    match h.action() {
        Action::Reply(r) => r,
        other => panic!("no reply: {:?}", other),
    }
}

#[test]
fn free_label_is_granted_and_registered() {
    let cfg = config();
    let mut reg = Connections::new();
    let state = begin(hello(Some("foo")), &reg);
    match state.action() {
        Action::QueryCluster { full_host } => assert_eq!(full_host, "foo.example.com"),
        other => panic!("unexpected action {:?}", other),
    }
    let state = state.step(Event::Cluster(ClusterAnswer::NotServed), &cfg, &reg);
    match state.action() {
        Action::Authorize { key, sub_domain } => {
            assert_eq!(key.0, "secret");
            assert_eq!(sub_domain, "foo");
        }
        other => panic!("unexpected action {:?}", other),
    }
    let state = state.step(Event::Auth(AuthAnswer::Decided(AuthResult::Available)), &cfg, &reg);
    assert!(state.is_final());
    let grant = match state.action() {
        Action::Register(grant) => grant,
        other => panic!("unexpected action {:?}", other),
    };
    assert_eq!(grant.id.0, "fresh");
    assert_eq!(grant.sub_domain, "foo");
    assert_eq!(grant.domain, "example.com");
    assert!(!grant.is_anonymous);
    assert!(!grant.wildcard);
    let (tx, _rx) = channel();
    let client = register(grant, tx.clone(), &mut reg).unwrap();
    assert!(client.tx.same_receiver(&tx));
    match welcome(&client) {
        ServerHello::Success { sub_domain, hostname, client_id } => {
            assert_eq!(sub_domain, "foo");
            assert_eq!(hostname, "foo.example.com");
            assert_eq!(client_id.0, "fresh");
        }
        other => panic!("unexpected reply {:?}", other),
    }
    assert_eq!(reg.client_for_host(&"foo.example.com".to_string()).unwrap().0, "fresh");
    assert!(reg.get(&ClientId("fresh".to_string())).is_some());
}

#[test]
fn label_of_another_client_is_in_use() {
    let mut reg = Connections::new();
    reg.add(session("other", "foo", "example.com", false));
    let state = begin(hello(Some("foo")), &reg);
    assert_eq!(rejection(&state), Rejection::HostInUse);
    assert!(matches!(reply_of(&state), ServerHello::SubDomainInUse));
    assert_eq!(reg.client_for_host(&"foo.example.com".to_string()).unwrap().0, "other");
    assert_eq!(reg.get_all_clients().len(), 1);
    assert!(reg.get(&ClientId("fresh".to_string())).is_none());
}

#[test]
fn invalid_label_is_refused_at_once() {
    let reg = Connections::new();
    let state = begin(hello(Some("foo!bar")), &reg);
    assert_eq!(rejection(&state), Rejection::InvalidLabel);
    assert!(state.is_final());
    assert!(matches!(reply_of(&state), ServerHello::InvalidSubDomain));
    // Nothing that is handed in afterwards revives it.
    let state = state.step(Event::Cluster(ClusterAnswer::NotServed), &config(), &reg);
    let state = state.step(
        Event::Auth(AuthAnswer::Decided(AuthResult::Available)),
        &config(),
        &reg,
    );
    assert_eq!(rejection(&state), Rejection::InvalidLabel);
}

#[test]
fn payment_required_fails_authentication() {
    let cfg = config();
    let reg = Connections::new();
    for decision in [AuthResult::PaymentRequired, AuthResult::ReservedByYouButDelinquent] {
        let state = begin(hello(Some("foo")), &reg);
        let state = state.step(Event::Cluster(ClusterAnswer::NotServed), &cfg, &reg);
        let state = state.step(Event::Auth(AuthAnswer::Decided(decision)), &cfg, &reg);
        assert_eq!(rejection(&state), Rejection::PaymentRequired);
        assert!(matches!(reply_of(&state), ServerHello::AuthFailed));
    }
    assert!(reg.get_all_clients().is_empty());
    assert!(reg.find_by_host(&"foo.example.com".to_string()).is_none());
}

#[test]
fn anonymous_client_fails_authentication() {
    let reg = Connections::new();
    let token = ReconnectTokenPayload {
        sub_domain: "foo".to_string(),
        client_id: ClientId("c".to_string()),
    }
    .mint(&config().master_sig_key);
    let variants = vec![
        anonymous(None),
        anonymous(Some("foo")),
        anonymous(Some("foo!bar")),
        ClientHello { wildcard: true, ..anonymous(Some("www")) },
        ClientHello { reconnect_token: Some(token), ..anonymous(None) },
        ClientHello { domain: Some("example.org".to_string()), ..anonymous(None) },
    ];
    for h in variants {
        let state = begin(h, &reg);
        assert_eq!(rejection(&state), Rejection::Anonymous);
        assert!(matches!(reply_of(&state), ServerHello::AuthFailed));
    }
}

#[test]
fn root_domain_is_settled_before_anything_else() {
    let reg = Connections::new();
    let state = begin(
        ClientHello { domain: Some("evil.test".to_string()), ..anonymous(Some("foo")) },
        &reg,
    );
    assert_eq!(rejection(&state), Rejection::DomainNotAllowed);
    assert!(matches!(reply_of(&state), ServerHello::InvalidSubDomain));

    let empty = Config { allowed_hosts: vec![], ..config() };
    let state = auth_client(
        Opening::Hello(hello(Some("foo"))),
        ClientId("fresh".to_string()),
        "rnd12345".to_string(),
        &empty,
        &reg,
    );
    assert_eq!(rejection(&state), Rejection::NoAllowedHosts);
    match reply_of(&state) {
        ServerHello::Error(message) => assert_eq!(message, "Server misconfigured"),
        other => panic!("unexpected reply {:?}", other),
    }
}

#[test]
fn domain_resolution() {
    let allowed = vec!["example.com".to_string(), "example.org".to_string()];
    assert_eq!(resolve_domain(&None, &allowed), Ok("example.com".to_string()));
    assert_eq!(
        resolve_domain(&Some("example.org".to_string()), &allowed),
        Ok("example.org".to_string())
    );
    assert_eq!(
        resolve_domain(&Some("Example.org".to_string()), &allowed),
        Err(Rejection::DomainNotAllowed)
    );
    assert_eq!(resolve_domain(&None, &vec![]), Err(Rejection::NoAllowedHosts));
    assert_eq!(
        resolve_domain(&Some("example.com".to_string()), &vec![]),
        Err(Rejection::DomainNotAllowed)
    );
}

#[test]
fn missing_hello_gets_no_reply() {
    let reg = Connections::new();
    let state = auth_client(
        Opening::Missing,
        ClientId("fresh".to_string()),
        "rnd12345".to_string(),
        &config(),
        &reg,
    );
    assert_eq!(rejection(&state), Rejection::NoHello);
    assert!(matches!(state.action(), Action::Close));
    assert!(Rejection::NoHello.reply().is_none());
}

#[test]
fn undecodable_hello_fails_authentication() {
    let reg = Connections::new();
    let state = auth_client(
        Opening::Undecodable,
        ClientId("fresh".to_string()),
        "rnd12345".to_string(),
        &config(),
        &reg,
    );
    assert_eq!(rejection(&state), Rejection::UndecodableHello);
    assert!(matches!(reply_of(&state), ServerHello::AuthFailed));
}

#[test]
fn handshake_starts_by_reading() {
    let reg = Connections::new();
    let state = Handshake::AwaitingHello;
    assert!(!state.is_final());
    assert!(matches!(state.action(), Action::ReadHello));
    // An answer that is not waited for changes nothing.
    let state = state.step(Event::Auth(AuthAnswer::Failed), &config(), &reg);
    assert!(matches!(state, Handshake::AwaitingHello));
    let state = state.step(
        Event::Opened {
            opening: Opening::Hello(hello(Some("Foo"))),
            fresh_id: ClientId("fresh".to_string()),
            random_label: "rnd12345".to_string(),
        },
        &config(),
        &reg,
    );
    match state {
        Handshake::AwaitingCluster(p) => {
            assert_eq!(p.grant.sub_domain, "foo");
            assert_eq!(p.key.0, "secret");
        }
        other => panic!("unexpected state {:?}", other),
    }
}

#[test]
fn label_is_folded_and_blocked_labels_are_in_use() {
    let reg = Connections::new();
    let state = begin(hello(Some("WWW")), &reg);
    assert_eq!(rejection(&state), Rejection::BlockedLabel);
    assert!(matches!(reply_of(&state), ServerHello::SubDomainInUse));
}

#[test]
fn without_label_and_token_the_random_label_is_used() {
    let reg = Connections::new();
    match begin(hello(None), &reg) {
        Handshake::AwaitingCluster(p) => {
            assert_eq!(p.grant.sub_domain, "rnd12345");
            assert_eq!(p.grant.id.0, "fresh");
        }
        other => panic!("unexpected state {:?}", other),
    }
}

#[test]
fn requested_domain_is_used() {
    let reg = Connections::new();
    let h = ClientHello { domain: Some("example.org".to_string()), ..hello(Some("foo")) };
    match begin(h, &reg).action() {
        Action::QueryCluster { full_host } => assert_eq!(full_host, "foo.example.org"),
        other => panic!("unexpected action {:?}", other),
    }
}

#[test]
fn same_label_under_another_domain_is_free() {
    let mut reg = Connections::new();
    reg.add(session("other", "foo", "example.org", false));
    assert!(matches!(begin(hello(Some("foo")), &reg), Handshake::AwaitingCluster(_)));
}

#[test]
fn host_of_the_same_client_is_not_in_use() {
    let mut reg = Connections::new();
    reg.add(session("fresh", "foo", "example.com", false));
    let r = sanitize_sub_domain_and_pre_validate(
        "FOO",
        "example.com",
        &ClientId("fresh".to_string()),
        &config(),
        &reg,
    );
    assert_eq!(r, Ok("foo".to_string()));
    let r = sanitize_sub_domain_and_pre_validate(
        "FOO",
        "example.com",
        &ClientId("someone".to_string()),
        &config(),
        &reg,
    );
    assert_eq!(r, Err(Rejection::HostInUse));
}

fn grant(id: &str, wildcard: bool) -> ClientHandshake {
    ClientHandshake {
        id: ClientId(id.to_string()),
        sub_domain: "foo".to_string(),
        domain: "example.com".to_string(),
        is_anonymous: false,
        wildcard,
    }
}

#[test]
fn cluster_answers() {
    let reg = Connections::new();
    let g = grant("fresh", false);
    assert_eq!(conclude_pre_validation(&ClusterAnswer::NotServed, &g, &reg), None);
    assert_eq!(conclude_pre_validation(&ClusterAnswer::Failed, &g, &reg), None);
    assert_eq!(
        conclude_pre_validation(&ClusterAnswer::ServedBy(ClientId("fresh".to_string())), &g, &reg),
        None
    );
    assert_eq!(
        conclude_pre_validation(&ClusterAnswer::ServedBy(ClientId("other".to_string())), &g, &reg),
        Some(Rejection::HostInUseElsewhere)
    );
}

#[test]
fn host_served_elsewhere_is_in_use() {
    let cfg = config();
    let reg = Connections::new();
    let state = begin(hello(Some("foo")), &reg);
    let state = state.step(
        Event::Cluster(ClusterAnswer::ServedBy(ClientId("other".to_string()))),
        &cfg,
        &reg,
    );
    assert_eq!(rejection(&state), Rejection::HostInUseElsewhere);
    assert!(matches!(reply_of(&state), ServerHello::SubDomainInUse));
}

#[test]
fn failed_lookup_does_not_block() {
    let cfg = config();
    let reg = Connections::new();
    let state = begin(hello(Some("foo")), &reg);
    let state = state.step(Event::Cluster(ClusterAnswer::Failed), &cfg, &reg);
    assert!(matches!(state, Handshake::AwaitingAuth(_)));
}

#[test]
fn wildcard_of_another_client_is_in_use() {
    let cfg = config();
    let mut reg = Connections::new();
    reg.add(session("holder", "any", "example.com", true));
    let h = ClientHello { wildcard: true, ..hello(Some("foo")) };
    let state = begin(h, &reg);
    let state = state.step(Event::Cluster(ClusterAnswer::NotServed), &cfg, &reg);
    assert_eq!(rejection(&state), Rejection::WildcardInUse);
    assert!(matches!(reply_of(&state), ServerHello::SubDomainInUse));

    // Without the flag, or under another root domain, nothing is in the way.
    let state = begin(hello(Some("foo")), &reg);
    let state = state.step(Event::Cluster(ClusterAnswer::NotServed), &cfg, &reg);
    assert!(matches!(state, Handshake::AwaitingAuth(_)));
    let h = ClientHello {
        wildcard: true,
        domain: Some("example.org".to_string()),
        ..hello(Some("foo"))
    };
    let state = begin(h, &reg);
    let state = state.step(Event::Cluster(ClusterAnswer::NotServed), &cfg, &reg);
    assert!(matches!(state, Handshake::AwaitingAuth(_)));
}

#[test]
fn authorization_decisions() {
    assert_eq!(check_authorization(AuthAnswer::Decided(AuthResult::Available)), None);
    assert_eq!(check_authorization(AuthAnswer::Decided(AuthResult::ReservedByYou)), None);
    assert_eq!(
        check_authorization(AuthAnswer::Decided(AuthResult::ReservedByYouButDelinquent)),
        Some(Rejection::PaymentRequired)
    );
    assert_eq!(
        check_authorization(AuthAnswer::Decided(AuthResult::PaymentRequired)),
        Some(Rejection::PaymentRequired)
    );
    assert_eq!(
        check_authorization(AuthAnswer::Decided(AuthResult::ReservedByOther)),
        Some(Rejection::OwnedByOther)
    );
    assert_eq!(check_authorization(AuthAnswer::Failed), Some(Rejection::BackendFailed));
}

#[test]
fn backend_outcomes_end_the_handshake() {
    let cfg = config();
    let reg = Connections::new();
    let run = |answer: AuthAnswer| {
        let state = begin(hello(Some("foo")), &reg);
        let state = state.step(Event::Cluster(ClusterAnswer::NotServed), &cfg, &reg);
        state.step(Event::Auth(answer), &cfg, &reg)
    };
    assert!(matches!(
        run(AuthAnswer::Decided(AuthResult::ReservedByYou)),
        Handshake::Accepted(_)
    ));
    let state = run(AuthAnswer::Decided(AuthResult::ReservedByOther));
    assert_eq!(rejection(&state), Rejection::OwnedByOther);
    assert!(matches!(reply_of(&state), ServerHello::SubDomainInUse));
    let state = run(AuthAnswer::Failed);
    assert_eq!(rejection(&state), Rejection::BackendFailed);
    assert!(matches!(reply_of(&state), ServerHello::AuthFailed));
}

fn token_for(id: &str, sub: &str) -> ReconnectToken {
    ReconnectTokenPayload { sub_domain: sub.to_string(), client_id: ClientId(id.to_string()) }
        .mint(&config().master_sig_key)
}

#[test]
fn reconnect_token_skips_validation_but_not_authorization() {
    let cfg = config();
    let mut reg = Connections::new();
    // The label of the token is neither sanitized nor checked for use.
    reg.add(session("someone", "WWW", "example.com", false));
    let h = ClientHello { reconnect_token: Some(token_for("client-1", "WWW")), ..hello(None) };
    let state = begin(h, &reg);
    match state.action() {
        Action::Authorize { key, sub_domain } => {
            assert_eq!(key.0, "secret");
            assert_eq!(sub_domain, "WWW");
        }
        other => panic!("unexpected action {:?}", other),
    }
    let state = state.step(Event::Auth(AuthAnswer::Decided(AuthResult::Available)), &cfg, &reg);
    match state {
        Handshake::Accepted(g) => {
            assert_eq!(g.id.0, "client-1");
            assert_eq!(g.sub_domain, "WWW");
            assert_eq!(g.domain, "example.com");
            assert!(g.is_anonymous);
            assert!(!g.wildcard);
        }
        other => panic!("unexpected state {:?}", other),
    }
}

#[test]
fn explicit_label_takes_precedence_over_token() {
    let reg = Connections::new();
    let h = ClientHello {
        reconnect_token: Some(token_for("client-1", "bar")),
        ..hello(Some("foo"))
    };
    match begin(h, &reg) {
        Handshake::AwaitingCluster(p) => {
            assert_eq!(p.grant.sub_domain, "foo");
            assert_eq!(p.grant.id.0, "fresh");
            assert!(!p.grant.is_anonymous);
        }
        other => panic!("unexpected state {:?}", other),
    }
}

#[test]
fn bad_reconnect_token_fails_authentication() {
    let reg = Connections::new();
    let mut tampered = token_for("client-1", "foo");
    let last = tampered.0.len() - 1;
    tampered.0[last] ^= 1;
    let state = begin(ClientHello { reconnect_token: Some(tampered), ..hello(None) }, &reg);
    assert_eq!(rejection(&state), Rejection::BadToken(TokenError::InvalidSignature));
    assert!(matches!(reply_of(&state), ServerHello::AuthFailed));

    let state = begin(
        ClientHello { reconnect_token: Some(ReconnectToken(vec![1, 2, 3])), ..hello(None) },
        &reg,
    );
    assert_eq!(rejection(&state), Rejection::BadToken(TokenError::Malformed));
    assert!(matches!(reply_of(&state), ServerHello::AuthFailed));
}

#[test]
fn reconnect_with_wildcard_against_another_holder_is_in_use() {
    let mut reg = Connections::new();
    reg.add(session("holder", "any", "example.com", true));
    let key = config().master_sig_key;
    let r = handle_reconnect_token(
        &token_for("client-1", "foo"),
        true,
        "example.com".to_string(),
        &key,
        &reg,
    );
    assert_eq!(r.err(), Some(Rejection::WildcardInUse));
    assert!(matches!(Rejection::WildcardInUse.reply(), Some(ServerHello::SubDomainInUse)));

    // The holder itself may come back, and so may anyone without the flag.
    let r = handle_reconnect_token(
        &token_for("holder", "any"),
        true,
        "example.com".to_string(),
        &key,
        &reg,
    )
    .unwrap();
    assert_eq!(r.id.0, "holder");
    assert!(r.wildcard);
    assert!(r.is_anonymous);
    let r = handle_reconnect_token(
        &token_for("client-1", "foo"),
        false,
        "example.com".to_string(),
        &key,
        &reg,
    );
    assert!(r.is_ok());
}

#[test]
fn registering_checks_and_files_in_one_step() {
    let mut reg = Connections::new();
    let (tx, _rx) = channel();
    assert!(register(grant("a", false), tx, &mut reg).is_ok());
    let (tx, _rx) = channel();
    let r = register(grant("b", false), tx, &mut reg);
    assert_eq!(r.err(), Some(Rejection::HostInUse));
    assert_eq!(reg.client_for_host(&"foo.example.com".to_string()).unwrap().0, "a");
    assert!(reg.get(&ClientId("b".to_string())).is_none());

    let mut reg = Connections::new();
    reg.add(session("holder", "any", "example.com", true));
    let (tx, _rx) = channel();
    let r = register(grant("b", true), tx, &mut reg);
    assert_eq!(r.err(), Some(Rejection::WildcardInUse));
    assert!(reg.find_by_host(&"foo.example.com".to_string()).is_none());
}

#[test]
fn every_refusal_has_its_reply_and_kind() {
    let auth_failed = [
        Rejection::UndecodableHello,
        Rejection::Anonymous,
        Rejection::BadToken(TokenError::Malformed),
        Rejection::BadToken(TokenError::InvalidSignature),
        Rejection::PaymentRequired,
        Rejection::BackendFailed,
    ];
    for e in auth_failed {
        assert!(matches!(e.reply(), Some(ServerHello::AuthFailed)));
    }
    for e in [Rejection::DomainNotAllowed, Rejection::InvalidLabel] {
        assert!(matches!(e.reply(), Some(ServerHello::InvalidSubDomain)));
    }
    for e in [Rejection::BlockedLabel, Rejection::HostInUse, Rejection::HostInUseElsewhere, Rejection::WildcardInUse, Rejection::OwnedByOther] {
        assert!(matches!(e.reply(), Some(ServerHello::SubDomainInUse)));
    }
    assert!(matches!(Rejection::NoAllowedHosts.reply(), Some(ServerHello::Error(_))));
    assert!(Rejection::NoHello.reply().is_none());

    assert_eq!(Rejection::NoHello.kind(), ErrorKind::Protocol);
    assert_eq!(Rejection::UndecodableHello.kind(), ErrorKind::Protocol);
    assert_eq!(Rejection::NoAllowedHosts.kind(), ErrorKind::Misconfigured);
    assert_eq!(Rejection::DomainNotAllowed.kind(), ErrorKind::Policy);
    assert_eq!(Rejection::InvalidLabel.kind(), ErrorKind::Policy);
    assert_eq!(Rejection::BlockedLabel.kind(), ErrorKind::Policy);
    assert_eq!(Rejection::HostInUse.kind(), ErrorKind::Conflict);
    assert_eq!(Rejection::HostInUseElsewhere.kind(), ErrorKind::Conflict);
    assert_eq!(Rejection::WildcardInUse.kind(), ErrorKind::Conflict);
    assert_eq!(Rejection::OwnedByOther.kind(), ErrorKind::Conflict);
    assert_eq!(Rejection::Anonymous.kind(), ErrorKind::Auth);
    assert_eq!(Rejection::BadToken(TokenError::Malformed).kind(), ErrorKind::Auth);
    assert_eq!(Rejection::PaymentRequired.kind(), ErrorKind::Auth);
    assert_eq!(Rejection::BackendFailed.kind(), ErrorKind::Backend);
}

#[test]
fn handshake_with_drawn_id_and_label() {
    let reg = Connections::new();
    match auth_client_handshake(Opening::Hello(hello(None)), &config(), &reg) {
        Handshake::AwaitingCluster(p) => {
            assert_eq!(p.grant.id.0.chars().count(), 32);
            assert!(p.grant.id.0.chars().all(|c| c.is_ascii_alphanumeric()));
            assert_eq!(p.grant.sub_domain.chars().count(), 8);
            assert!(p
                .grant
                .sub_domain
                .chars()
                .all(|c| c.is_ascii_lowercase() || c.is_ascii_digit()));
        }
        other => panic!("unexpected state {:?}", other),
    }
    let state = auth_client_handshake(Opening::Hello(anonymous(None)), &config(), &reg);
    assert_eq!(rejection(&state), Rejection::Anonymous);
    let state = auth_client_handshake(Opening::Missing, &config(), &reg);
    assert_eq!(rejection(&state), Rejection::NoHello);
}

#[test]
fn two_handshakes_for_one_host_taken_in_turn() {
    let cfg = config();
    let mut reg = Connections::new();
    let run = |id: &str, reg: &Connections| {
        let state = auth_client(
            Opening::Hello(hello(Some("Foo"))),
            ClientId(id.to_string()),
            "rnd12345".to_string(),
            &cfg,
            reg,
        );
        let state = state.step(Event::Cluster(ClusterAnswer::NotServed), &cfg, reg);
        state.step(Event::Auth(AuthAnswer::Decided(AuthResult::Available)), &cfg, reg)
    };
    // Both run to a grant before either is filed.
    let first = match run("one", &reg) {
        Handshake::Accepted(grant) => grant,
        other => panic!("unexpected state {:?}", other),
    };
    let second = match run("two", &reg) {
        Handshake::Accepted(grant) => grant,
        other => panic!("unexpected state {:?}", other),
    };
    let (tx, _rx1) = channel();
    let filed = register(first, tx, &mut reg).unwrap();
    assert_eq!(filed.id.0, "one");
    let (tx, _rx2) = channel();
    let refused = register(second, tx, &mut reg).err().unwrap();
    assert_eq!(refused, Rejection::HostInUse);
    assert!(matches!(refused.reply(), Some(ServerHello::SubDomainInUse)));
    assert_eq!(reg.client_for_host(&"foo.example.com".to_string()).unwrap().0, "one");
    assert!(reg.get(&ClientId("two".to_string())).is_none());
    assert_eq!(reg.get_all_clients().len(), 1);
    // A handshake that begins afterwards is refused at its first step.
    let late = run("three", &reg);
    assert_eq!(rejection(&late), Rejection::HostInUse);
}

#[test]
fn reconnect_token_with_a_flipped_bit_fails_authentication() {
    let reg = Connections::new();
    let key = config().master_sig_key;
    let token = token_for("client-1", "foo");
    for at in 0..token.0.len() {
        for bit in 0..8 {
            let mut bytes = token.0.clone();
            bytes[at] ^= 1 << bit;
            for wildcard in [false, true] {
                let r = handle_reconnect_token(
                    &ReconnectToken(bytes.clone()),
                    wildcard,
                    "example.com".to_string(),
                    &key,
                    &reg,
                );
                match r {
                    Err(e @ Rejection::BadToken(_)) => {
                        assert!(matches!(e.reply(), Some(ServerHello::AuthFailed)))
                    }
                    other => panic!("byte {} bit {}: {:?}", at, bit, other),
                }
            }
        }
    }
}
