//! Host lookup among the instances of a fleet: what one instance's reply
//! means, and which of many replies counts.
//!
//! The caller sends a `HostQuery` to every known instance, each with the
//! timeout below, and hands the replies in. An instance that cannot be
//! reached, or that does not serve the host, says nothing against the host:
//! only an instance that names a client counts. A server with no other
//! instance configured asks no one and finds nothing.

use vstd::prelude::*;
use crate::auth::client_auth::{ClusterAnswer, ClusterAnswerView};
use crate::config::Config;
use crate::protocol::ClientId;

verus! {

/// The seconds after which a query to one instance is given up.
pub const HOST_QUERY_TIMEOUT_SECS: u64 = 2;

/// The status with which an instance answers a query that it understood.
pub const STATUS_OK: u16 = 200;

/// Why a lookup did not name a client.
#[derive(Debug, Clone, Copy, PartialEq, Eq, Structural)]
pub enum Error {
    IoError,
    Request,
    Resolver,
    DoesNotServeHost,
}

/// An instance of the server, by its address.
#[derive(Debug)]
pub struct Instance {
    pub ip: String,
}

impl View for Instance {
    type V = Seq<char>;

    open spec fn view(&self) -> Seq<char> {
        self.ip@
    }
}

/// The question put to an instance: do you serve this hostname?
#[derive(Debug)]
pub struct HostQuery {
    pub host: String,
}

/// The answer of an instance: the client it serves the hostname for, if any.
#[derive(Debug)]
pub struct HostQueryResponse {
    pub client_id: Option<ClientId>,
}

/// What came of one query.
#[derive(Debug)]
pub enum PeerReply {
    /// The instance answered with this status and body.
    Answered { status: u16, response: HostQueryResponse },
    /// The query failed on the way.
    Failed(Error),
}

pub enum PeerReplyView {
    Answered { status: u16, client_id: Option<Seq<char>> },
    Failed(Error),
}

impl View for PeerReply {
    type V = PeerReplyView;

    open spec fn view(&self) -> PeerReplyView {
        match self {
            PeerReply::Answered { status, response } => PeerReplyView::Answered {
                status: *status,
                client_id: match response.client_id {
                    Some(id) => Some(id@),
                    None => None,
                },
            },
            PeerReply::Failed(e) => PeerReplyView::Failed(*e),
        }
    }
}

/// The client that a reply names: only an answer with the OK status and a
/// client id names one.
pub open spec fn served(reply: PeerReplyView) -> Result<Seq<char>, Error> {
    match reply {
        PeerReplyView::Answered { status, client_id: Some(id) } => if status == STATUS_OK {
            Ok(id)
        } else {
            Err(Error::DoesNotServeHost)
        },
        PeerReplyView::Answered { status, client_id: None } => Err(Error::DoesNotServeHost),
        PeerReplyView::Failed(e) => Err(e),
    }
}

/// The first reply, in the order given, that names a client, with the
/// instance that gave it.
pub open spec fn lookup(replies: Seq<(Seq<char>, PeerReplyView)>) -> Result<
    (Seq<char>, Seq<char>),
    Error,
>
    decreases replies.len(),
{
    if replies.len() == 0 {
        Err(Error::DoesNotServeHost)
    } else {
        match served(replies[0].1) {
            Ok(id) => Ok((replies[0].0, id)),
            Err(_) => lookup(replies.drop_first()),
        }
    }
}

/// The addresses of a list of instances.
pub open spec fn instance_views(v: Seq<Instance>) -> Seq<Seq<char>> {
    Seq::new(v.len(), |i: int| v[i]@)
}

/// The views of a list of replies.
pub open spec fn reply_views(v: Seq<(Instance, PeerReply)>) -> Seq<(Seq<char>, PeerReplyView)> {
    Seq::new(v.len(), |i: int| (v[i].0@, v[i].1@))
}

/// The view of a lookup's result.
pub open spec fn lookup_result(r: Result<(Instance, ClientId), Error>) -> Result<
    (Seq<char>, Seq<char>),
    Error,
> {
    match r {
        Ok((instance, id)) => Ok((instance@, id@)),
        Err(e) => Err(e),
    }
}

/// What the handshake is told of a lookup.
pub open spec fn cluster_answer_of(r: Result<(Seq<char>, Seq<char>), Error>) -> ClusterAnswerView {
    match r {
        Ok((_, id)) => ClusterAnswerView::ServedBy(id),
        Err(Error::DoesNotServeHost) => ClusterAnswerView::NotServed,
        Err(_) => ClusterAnswerView::Failed,
    }
}

impl Instance {
    /// Every other instance of the fleet: the configured ones, in their
    /// order. A server that stands alone has none, and a lookup among none
    /// finds nothing.
    pub fn get_instances(config: &Config) -> (r: Result<Vec<Instance>, Error>)
        ensures
            r is Ok,
            instance_views(r->Ok_0@) == config@.instances,
    {
        let mut out: Vec<Instance> = Vec::new();
        let mut i: usize = 0;
        while i < config.instances.len()
            invariant
                i <= config.instances.len(),
                out.len() == i,
                forall|j: int| 0 <= j < i ==> (#[trigger] out[j])@ == config.instances[j]@,
            decreases config.instances.len() - i,
        {
            out.push(Instance { ip: config.instances[i].clone() });
            i = i + 1;
        }
        assert(instance_views(out@) =~= config@.instances);
        Ok(out)
    }

    /// The question to put to an instance about `host`.
    pub fn host_query(host: &str) -> (q: HostQuery)
        ensures
            q.host@ == host@,
    {
        HostQuery { host: String::from_str(host) }
    }

    /// Reads the reply of this instance to a query: the client it serves
    /// the host for, or why it names none.
    pub fn serves_host(self, reply: PeerReply) -> (r: Result<(Instance, ClientId), Error>)
        ensures
            match r {
                Ok((instance, id)) => instance@ == self@ && served(reply@) == Ok::<
                    Seq<char>,
                    Error,
                >(id@),
                Err(e) => served(reply@) == Err::<Seq<char>, Error>(e),
            },
    {
        match reply {
            PeerReply::Answered { status, response } => {
                match response.client_id {
                    Some(client_id) => {
                        if status == STATUS_OK {
                            Ok((self, client_id))
                        } else {
                            Err(Error::DoesNotServeHost)
                        }
                    },
                    None => Err(Error::DoesNotServeHost),
                }
            },
            PeerReply::Failed(e) => Err(e),
        }
    }
}

/// The instance that serves a host, from the replies of all instances: the
/// first that names a client. A reply that names none, or that failed,
/// is passed over.
pub fn instance_for_host(replies: Vec<(Instance, PeerReply)>) -> (r: Result<
    (Instance, ClientId),
    Error,
>)
    ensures
        lookup_result(r) == lookup(reply_views(replies@)),
{
    let ghost all = reply_views(replies@);
    let mut rest = replies;
    let mut skipped: Ghost<int> = Ghost(0);
    assert(all.skip(0) =~= all);
    while rest.len() > 0
        invariant
            all == reply_views(replies@),
            0 <= skipped@ <= all.len(),
            reply_views(rest@) == all.skip(skipped@),
            lookup(all) == lookup(all.skip(skipped@)),
        decreases rest.len(),
    {
        let ghost before = reply_views(rest@);
        let (instance, reply) = rest.remove(0);
        proof {
            assert(before[0] == (instance@, reply@));
            assert(reply_views(rest@) =~= before.drop_first());
            assert(before.drop_first() =~= all.skip(skipped@ + 1));
        }
        let ghost first = (instance@, reply@);
        match instance.serves_host(reply) {
            Ok(found) => {
                assert(lookup(before) == lookup_result(Ok(found))) by {
                    assert(before[0] == first);
                }
                return Ok(found);
            },
            Err(_) => {
                assert(lookup(before) == lookup(before.drop_first())) by {
                    assert(before[0] == first);
                }
            },
        }
        proof {
            skipped@ = skipped@ + 1;
        }
    }
    proof {
        assert(all.skip(skipped@).len() == 0);
    }
    Err(Error::DoesNotServeHost)
}

/// What the handshake is told of a lookup: the client found, that no
/// instance serves the host, or that the lookup failed.
pub fn cluster_answer(found: Result<(Instance, ClientId), Error>) -> (r: ClusterAnswer)
    ensures
        r@ == cluster_answer_of(lookup_result(found)),
{
    match found {
        Ok((_, id)) => ClusterAnswer::ServedBy(id),
        Err(Error::DoesNotServeHost) => ClusterAnswer::NotServed,
        Err(_) => ClusterAnswer::Failed,
    }
}

/// A lookup names a client exactly when some reply does; replies that fail
/// or name none never make a lookup fail with anything but "not served".
pub proof fn lemma_lookup_honors_any_reply(replies: Seq<(Seq<char>, PeerReplyView)>)
    ensures
        lookup(replies) is Ok <==> exists|i: int|
            0 <= i < replies.len() && served(#[trigger] replies[i].1) is Ok,
        lookup(replies) is Err ==> lookup(replies) == Err::<(Seq<char>, Seq<char>), Error>(
            Error::DoesNotServeHost,
        ),
        lookup(replies) is Ok ==> exists|i: int|
            0 <= i < replies.len() && served(#[trigger] replies[i].1) == Ok::<Seq<char>, Error>(
                lookup(replies)->Ok_0.1,
            ),
    decreases replies.len(),
{
    if replies.len() > 0 {
        let rest = replies.drop_first();
        lemma_lookup_honors_any_reply(rest);
        if served(replies[0].1) is Err {
            if lookup(rest) is Ok {
                let i = choose|i: int|
                    0 <= i < rest.len() && served(#[trigger] rest[i].1) == Ok::<Seq<char>, Error>(
                        lookup(rest)->Ok_0.1,
                    );
                assert(replies[i + 1] == rest[i]);
            }
            if exists|i: int| 0 <= i < replies.len() && served(#[trigger] replies[i].1) is Ok {
                let i = choose|i: int|
                    0 <= i < replies.len() && served(#[trigger] replies[i].1) is Ok;
                assert(rest[i - 1] == replies[i]);
            }
        }
    }
}

} // verus!
