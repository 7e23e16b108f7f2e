use neutun_control::auth::client_auth::ClusterAnswer;
use neutun_control::auth::reconnect_token::SigKey;
use neutun_control::config::Config;
use neutun_control::network::{
    cluster_answer, instance_for_host, Error, HostQueryResponse, Instance, PeerReply,
    HOST_QUERY_TIMEOUT_SECS, STATUS_OK,
};
use neutun_control::protocol::ClientId;

fn instance(ip: &str) -> Instance {
    Instance { ip: ip.to_string() }
}

fn answered(status: u16, id: Option<&str>) -> PeerReply {
    PeerReply::Answered {
        status,
        response: HostQueryResponse { client_id: id.map(|s| ClientId(s.to_string())) },
    }
}

#[test]
fn constants() {
    assert_eq!(HOST_QUERY_TIMEOUT_SECS, 2);
    assert_eq!(STATUS_OK, 200);
}

fn config(instances: &[&str]) -> Config {
    Config {
        allowed_hosts: vec!["example.com".to_string()],
        blocked_sub_domains: vec![],
        master_key: None,
        master_sig_key: SigKey(vec![]),
        internal_network_port: 6000,
        instances: instances.iter().map(|s| s.to_string()).collect(),
    }
}

#[test]
fn no_other_instances() {
    assert!(Instance::get_instances(&config(&[])).unwrap().is_empty());
    assert_eq!(instance_for_host(vec![]).err(), Some(Error::DoesNotServeHost));
}

#[test]
fn configured_instances_in_order() {
    let all = Instance::get_instances(&config(&["10.0.0.1", "10.0.0.2"])).unwrap();
    let ips: Vec<&str> = all.iter().map(|i| i.ip.as_str()).collect();
    assert_eq!(ips, vec!["10.0.0.1", "10.0.0.2"]);
}

#[test]
fn query_carries_the_host() {
    assert_eq!(Instance::host_query("foo.example.com").host, "foo.example.com");
}

#[test]
fn reply_with_ok_and_client_names_the_client() {
    let (inst, id) = instance("10.0.0.1").serves_host(answered(200, Some("c1"))).unwrap();
    assert_eq!(inst.ip, "10.0.0.1");
    assert_eq!(id.0, "c1");
}

#[test]
fn other_replies_name_no_one() {
    let none = |reply: PeerReply| instance("10.0.0.1").serves_host(reply).err();
    assert_eq!(none(answered(200, None)), Some(Error::DoesNotServeHost));
    assert_eq!(none(answered(404, Some("c1"))), Some(Error::DoesNotServeHost));
    assert_eq!(none(answered(500, None)), Some(Error::DoesNotServeHost));
    assert_eq!(none(PeerReply::Failed(Error::Request)), Some(Error::Request));
    assert_eq!(none(PeerReply::Failed(Error::IoError)), Some(Error::IoError));
}

#[test]
fn first_reply_that_names_a_client_counts() {
    let replies = vec![
        (instance("10.0.0.1"), PeerReply::Failed(Error::Request)),
        (instance("10.0.0.2"), answered(200, None)),
        (instance("10.0.0.3"), answered(200, Some("c3"))),
        (instance("10.0.0.4"), answered(200, Some("c4"))),
    ];
    let (inst, id) = instance_for_host(replies).unwrap();
    assert_eq!(inst.ip, "10.0.0.3");
    assert_eq!(id.0, "c3");
}

#[test]
fn failures_and_denials_find_nothing() {
    let replies = vec![
        (instance("10.0.0.1"), PeerReply::Failed(Error::Request)),
        (instance("10.0.0.2"), answered(200, None)),
        (instance("10.0.0.3"), PeerReply::Failed(Error::Resolver)),
        (instance("10.0.0.4"), answered(503, Some("c4"))),
    ];
    assert_eq!(instance_for_host(replies).err(), Some(Error::DoesNotServeHost));
}

#[test]
fn lookup_as_told_to_the_handshake() {
    let found = cluster_answer(Ok((instance("10.0.0.1"), ClientId("c1".to_string()))));
    assert!(matches!(found, ClusterAnswer::ServedBy(id) if id.0 == "c1"));
    assert!(matches!(cluster_answer(Err(Error::DoesNotServeHost)), ClusterAnswer::NotServed));
    assert!(matches!(cluster_answer(Err(Error::Request)), ClusterAnswer::Failed));
    assert!(matches!(cluster_answer(Err(Error::IoError)), ClusterAnswer::Failed));
    assert!(matches!(cluster_answer(Err(Error::Resolver)), ClusterAnswer::Failed));
}
