//! The registry of active sessions, indexed by client and by public host.

use vstd::prelude::*;
use dashmap::DashMap;
use futures::channel::mpsc::UnboundedSender;
use crate::protocol::{ClientId, ControlPacket};

verus! {

/// The sending end of an unbounded channel of the crate futures. Nothing
/// inside it is read here.
#[verifier::external_type_specification]
#[verifier::external_body]
#[verifier::reject_recursive_types(T)]
pub struct ExUnboundedSender<T>(UnboundedSender<T>);

/// The concurrent map of the crate dashmap. What one holds is spoken of
/// through `entries`.
#[verifier::external_type_specification]
#[verifier::external_body]
#[verifier::reject_recursive_types(K)]
#[verifier::reject_recursive_types(V)]
#[verifier::reject_recursive_types(S)]
pub struct ExDashMap<K, V, S>(DashMap<K, V, S>);

/// The hostname under which a session is reached: label, a dot, root domain.
pub open spec fn full_host_of(host: Seq<char>, domain: Seq<char>) -> Seq<char> {
    host + seq!['.'] + domain
}

/// What the registry reads of a session: all of it but the channel.
pub struct ClientView {
    pub id: Seq<char>,
    pub host: Seq<char>,
    pub domain: Seq<char>,
    pub is_anonymous: bool,
    pub wildcard: bool,
}

impl ClientView {
    pub open spec fn full_host(self) -> Seq<char> {
        full_host_of(self.host, self.domain)
    }
}

/// An active session: who it is, the host it serves and the channel on
/// which packets are pushed to it.
#[derive(Debug)]
pub struct ConnectedClient {
    pub id: ClientId,
    /// The host label (subdomain).
    pub host: String,
    /// The root domain.
    pub domain: String,
    /// Set only for a session admitted by a reconnect token.
    pub is_anonymous: bool,
    pub wildcard: bool,
    pub tx: UnboundedSender<ControlPacket>,
}

impl View for ConnectedClient {
    type V = ClientView;

    open spec fn view(&self) -> ClientView {
        ClientView {
            id: self.id@,
            host: self.host@,
            domain: self.domain@,
            is_anonymous: self.is_anonymous,
            wildcard: self.wildcard,
        }
    }
}

/// `UnboundedSender::clone`: one more handle on the same channel. Nothing is
/// claimed of it.
#[verifier::external_body]
fn clone_sender(tx: &UnboundedSender<ControlPacket>) -> UnboundedSender<ControlPacket> {
    tx.clone()
}

/// `UnboundedSender::close_channel`: closes the channel from the sender
/// side. It returns nothing and nothing is claimed of it.
#[verifier::external_body]
fn close_channel(tx: &UnboundedSender<ControlPacket>) {
    tx.close_channel()
}

/// Joins a label and a root domain with a dot.
pub fn join_host(host: &str, domain: &str) -> (r: String)
    ensures
        r@ == full_host_of(host@, domain@),
{
    proof {
        reveal_strlit(".");
    }
    let r = String::from_str(host).concat(".").concat(domain);
    assert(r@ =~= full_host_of(host@, domain@));
    r
}

impl Clone for ConnectedClient {
    fn clone(&self) -> (r: Self)
        ensures
            r@ == self@,
    {
        ConnectedClient {
            id: self.id.clone(),
            host: self.host.clone(),
            domain: self.domain.clone(),
            is_anonymous: self.is_anonymous,
            wildcard: self.wildcard,
            tx: clone_sender(&self.tx),
        }
    }
}

/// How a session is written in a log line: its id, label and root domain,
/// and whether a reconnect token let it in. The channel is left out.
pub open spec fn described(c: ClientView) -> Seq<char> {
    let anon = if c.is_anonymous {
        "true"@
    } else {
        "false"@
    };
    "ConnectedClient { id: "@ + c.id + ", sub: "@ + c.host + ", domain: "@ + c.domain
        + ", anon: "@ + anon + " }"@
}

impl ConnectedClient {
    /// The hostname under which the session is reached.
    pub fn full_host(&self) -> (r: String)
        ensures
            r@ == self@.full_host(),
    {
        join_host(self.host.as_str(), self.domain.as_str())
    }

    /// The session as a log line writes it.
    pub fn describe(&self) -> (r: String)
        ensures
            r@ == described(self@),
    {
        let anon = if self.is_anonymous {
            "true"
        } else {
            "false"
        };
        let line = String::from_str("ConnectedClient { id: ").concat(self.id.0.as_str());
        let line = line.concat(", sub: ").concat(self.host.as_str());
        let line = line.concat(", domain: ").concat(self.domain.as_str());
        line.concat(", anon: ").concat(anon).concat(" }")
    }
}

/// What a `DashMap` of sessions holds: the sessions by their keys.
pub uninterp spec fn entries(m: DashMap<String, ConnectedClient>) -> Map<Seq<char>, ClientView>;

/// `DashMap::new`: a map that holds nothing.
#[verifier::external_body]
fn map_new() -> (made: DashMap<String, ConnectedClient>)
    ensures
        forall|k: Seq<char>| !entries(made).contains_key(k),
{
    DashMap::new()
}

/// `DashMap::insert`: afterwards the key leads to the value, whether or not
/// it was present; the other entries stay.
#[verifier::external_body]
fn map_insert(m: &mut DashMap<String, ConnectedClient>, key: String, value: ConnectedClient)
    ensures
        entries(*final(m)) == entries(*old(m)).insert(key@, value@),
{
    m.insert(key, value);
}

/// `DashMap::remove`: afterwards the key is absent; the other entries stay.
#[verifier::external_body]
fn map_remove(m: &mut DashMap<String, ConnectedClient>, key: &String)
    ensures
        entries(*final(m)) == entries(*old(m)).remove(key@),
{
    m.remove(key);
}

/// `DashMap::get`, with the session copied out: the entry under the key, if
/// there is one.
#[verifier::external_body]
fn map_get(m: &DashMap<String, ConnectedClient>, key: &String) -> (r: Option<ConnectedClient>)
    ensures
        match r {
            Some(c) => entries(*m).contains_key(key@) && c@ == entries(*m)[key@],
            None => !entries(*m).contains_key(key@),
        },
{
    m.get(key).map(|c| c.value().clone())
}

/// `list` holds every entry of `m` once, as a key and its session.
pub open spec fn is_listing(
    m: Map<Seq<char>, ClientView>,
    list: Seq<(String, ConnectedClient)>,
) -> bool {
    &&& forall|i: int|
        0 <= i < list.len() ==> m.contains_key(#[trigger] list[i].0@) && m[list[i].0@]
            == list[i].1@
    &&& forall|i: int, j: int|
        0 <= i < j < list.len() ==> #[trigger] list[i].0@ != #[trigger] list[j].0@
    &&& forall|k: Seq<char>|
        m.contains_key(k) ==> exists|i: int| 0 <= i < list.len() && #[trigger] list[i].0@ == k
}

/// `DashMap::iter`, with each entry copied out: every entry once, in an
/// order that is left open.
#[verifier::external_body]
fn map_list(m: &DashMap<String, ConnectedClient>) -> (r: Vec<(String, ConnectedClient)>)
    ensures
        is_listing(entries(*m), r@),
{
    m.iter().map(|e| (e.key().clone(), e.value().clone())).collect()
}

/// Why a session cannot take the host or the wildcard it asks for.
#[derive(Debug, Clone, Copy, PartialEq, Eq, Structural)]
pub enum Conflict {
    /// The full hostname belongs to another client.
    HostInUse,
    /// Another client holds the wildcard of the root domain.
    WildcardInUse,
}

/// The two indices of the registry: sessions by client id and by full
/// hostname.
pub struct RegistryView {
    pub clients: Map<Seq<char>, ClientView>,
    pub hosts: Map<Seq<char>, ClientView>,
}

impl RegistryView {
    /// Each session is filed under its own id and under its own hostname.
    pub open spec fn wf(self) -> bool {
        &&& forall|id: Seq<char>| #[trigger]
            self.clients.contains_key(id) ==> self.clients[id].id == id
        &&& forall|h: Seq<char>| #[trigger]
            self.hosts.contains_key(h) ==> self.hosts[h].full_host() == h
    }

    pub open spec fn empty() -> RegistryView {
        RegistryView { clients: Map::empty(), hosts: Map::empty() }
    }

    /// Both indices take the session; whoever held its id or host is replaced.
    pub open spec fn added(self, c: ClientView) -> RegistryView {
        RegistryView {
            clients: self.clients.insert(c.id, c),
            hosts: self.hosts.insert(c.full_host(), c),
        }
    }

    pub open spec fn host_updated(self, c: ClientView) -> RegistryView {
        RegistryView { clients: self.clients, hosts: self.hosts.insert(c.full_host(), c) }
    }

    /// The session's hostname is filed under the session's own id.
    pub open spec fn owns_host(self, c: ClientView) -> bool {
        self.hosts.contains_key(c.full_host()) && self.hosts[c.full_host()].id == c.id
    }

    /// The id leaves the index by client; the hostname leaves the index by
    /// host only where the session still owns it.
    pub open spec fn removed(self, c: ClientView) -> RegistryView {
        RegistryView {
            clients: self.clients.remove(c.id),
            hosts: if self.owns_host(c) {
                self.hosts.remove(c.full_host())
            } else {
                self.hosts
            },
        }
    }

    /// Every hostname that `before` files under an id other than `id` is
    /// still filed, under the same session.
    pub open spec fn keeps_hosts_of_others(self, before: RegistryView, id: Seq<char>) -> bool {
        forall|h: Seq<char>|
            before.hosts.contains_key(h) && before.hosts[h].id != id ==> #[trigger]
                self.hosts.contains_key(h) && self.hosts[h] == before.hosts[h]
    }

    pub open spec fn host_held_by_other(self, host: Seq<char>, id: Seq<char>) -> bool {
        self.hosts.contains_key(host) && self.hosts[host].id != id
    }

    /// The hostname `h` is filed for a session whose host label is `label`.
    pub open spec fn files_label_at(self, h: Seq<char>, label: Seq<char>) -> bool {
        self.hosts.contains_key(h) && self.hosts[h].host == label
    }

    /// Some filed hostname is made of the host label `label`, under whatever
    /// root domain.
    pub open spec fn label_filed(self, label: Seq<char>) -> bool {
        exists|h: Seq<char>| #[trigger] self.files_label_at(h, label)
    }

    pub open spec fn is_wildcard_of(self, k: Seq<char>, domain: Seq<char>) -> bool {
        self.clients.contains_key(k) && self.clients[k].wildcard && self.clients[k].domain
            == domain
    }

    pub open spec fn wildcard_held_by_other(self, domain: Seq<char>, id: Seq<char>) -> bool {
        exists|k: Seq<char>| #[trigger] self.is_wildcard_of(k, domain) && k != id
    }

    /// At most one wildcard session for each root domain.
    pub open spec fn wildcard_unique(self) -> bool {
        forall|a: Seq<char>, b: Seq<char>, domain: Seq<char>|
            #[trigger] self.is_wildcard_of(a, domain) && #[trigger] self.is_wildcard_of(b, domain)
                ==> a == b
    }

    /// What stands in the way of the session, if anything: first its
    /// hostname, then, for a wildcard session, the wildcard of its domain.
    pub open spec fn conflict(self, c: ClientView) -> Option<Conflict> {
        if self.host_held_by_other(c.full_host(), c.id) {
            Some(Conflict::HostInUse)
        } else if c.wildcard && self.wildcard_held_by_other(c.domain, c.id) {
            Some(Conflict::WildcardInUse)
        } else {
            None
        }
    }

    /// `sessions` lists what the index by client holds, each entry once, in
    /// the order of `keys`.
    pub open spec fn lists(self, keys: Seq<Seq<char>>, sessions: Seq<ClientView>) -> bool {
        &&& keys.len() == sessions.len()
        &&& keys.no_duplicates()
        &&& forall|i: int|
            0 <= i < keys.len() ==> self.clients.contains_key(#[trigger] keys[i])
                && self.clients[keys[i]] == sessions[i]
        &&& forall|k: Seq<char>| self.clients.contains_key(k) ==> keys.contains(k)
    }

    /// The registry after the session tried to claim its host.
    pub open spec fn claimed(self, c: ClientView) -> RegistryView {
        if self.conflict(c) is None {
            self.added(c)
        } else {
            self
        }
    }
}

/// The directory of active sessions.
pub struct Connections {
    clients: DashMap<String, ConnectedClient>,
    hosts: DashMap<String, ConnectedClient>,
}

impl View for Connections {
    type V = RegistryView;

    closed spec fn view(&self) -> RegistryView {
        RegistryView { clients: entries(self.clients), hosts: entries(self.hosts) }
    }
}

impl Connections {
    /// A registry that holds no session.
    pub fn new() -> (r: Self)
        ensures
            r@ == RegistryView::empty(),
            r@.wf(),
    {
        let r = Connections { clients: map_new(), hosts: map_new() };
        assert(r@.clients =~= Map::empty());
        assert(r@.hosts =~= Map::empty());
        r
    }

    /// Files the session under its hostname, replacing whoever held it.
    pub fn update_host(&mut self, client: &ConnectedClient)
        ensures
            final(self)@ == old(self)@.host_updated(client@),
            old(self)@.wf() ==> final(self)@.wf(),
    {
        map_insert(&mut self.hosts, client.full_host(), client.clone());
        proof {
            if old(self)@.wf() {
                lemma_well_formed_is_kept(old(self)@, client@);
            }
        }
    }

    /// Files the session under its id and its hostname, unconditionally.
    pub fn add(&mut self, client: ConnectedClient)
        ensures
            final(self)@ == old(self)@.added(client@),
            old(self)@.wf() ==> final(self)@.wf(),
    {
        let key = client.id.0.clone();
        let host = client.full_host();
        map_insert(&mut self.clients, key, client.clone());
        map_insert(&mut self.hosts, host, client);
        proof {
            if old(self)@.wf() {
                lemma_well_formed_is_kept(old(self)@, client@);
            }
        }
    }

    /// Closes the session's channel and takes the session out: always out of
    /// the index by client, out of the index by host only if the hostname is
    /// still filed under this session's id.
    pub fn remove(&mut self, client: &ConnectedClient)
        ensures
            final(self)@ == old(self)@.removed(client@),
            final(self)@.keeps_hosts_of_others(old(self)@, client@.id),
            old(self)@.wf() ==> final(self)@.wf(),
    {
        close_channel(&client.tx);
        let full_host = client.full_host();
        let owned = match map_get(&self.hosts, &full_host) {
            Some(c) => c.id.same_as(&client.id),
            None => false,
        };
        if owned {
            map_remove(&mut self.hosts, &full_host);
        }
        map_remove(&mut self.clients, &client.id.0);
        proof {
            if old(self)@.wf() {
                lemma_well_formed_is_kept(old(self)@, client@);
            }
        }
    }

    /// The id of the client that serves `host`.
    pub fn client_for_host(&self, host: &String) -> (r: Option<ClientId>)
        ensures
            match r {
                Some(id) => self@.hosts.contains_key(host@) && id@ == self@.hosts[host@].id,
                None => !self@.hosts.contains_key(host@),
            },
    {
        match map_get(&self.hosts, host) {
            Some(c) => Some(c.id),
            None => None,
        }
    }

    /// The session of the client `client_id`.
    pub fn get(&self, client_id: &ClientId) -> (r: Option<ConnectedClient>)
        ensures
            match r {
                Some(c) => self@.clients.contains_key(client_id@) && c@
                    == self@.clients[client_id@],
                None => !self@.clients.contains_key(client_id@),
            },
    {
        map_get(&self.clients, &client_id.0)
    }

    /// The session that serves `host`.
    pub fn find_by_host(&self, host: &String) -> (r: Option<ConnectedClient>)
        ensures
            match r {
                Some(c) => self@.hosts.contains_key(host@) && c@ == self@.hosts[host@],
                None => !self@.hosts.contains_key(host@),
            },
    {
        map_get(&self.hosts, host)
    }

    /// The wildcard session of the root domain `domain`, if there is one;
    /// where several are filed, any one of them. In a well-formed registry
    /// the session found is the one filed under its own id.
    pub fn find_wildcard(&self, domain: &str) -> (r: Option<ConnectedClient>)
        ensures
            match r {
                Some(c) => exists|k: Seq<char>| #[trigger]
                    self@.is_wildcard_of(k, domain@) && self@.clients[k] == c@,
                None => forall|k: Seq<char>| !self@.is_wildcard_of(k, domain@),
            },
            r is Some && self@.wf() ==> self@.is_wildcard_of(r->0@.id, domain@)
                && self@.clients[r->0@.id] == r->0@,
    {
        let wanted = String::from_str(domain);
        let list = map_list(&self.clients);
        let mut i: usize = 0;
        while i < list.len()
            invariant
                i <= list.len(),
                wanted@ == domain@,
                is_listing(self@.clients, list@),
                forall|j: int|
                    0 <= j < i ==> !((#[trigger] list[j]).1.wildcard && list[j].1.domain@
                        == domain@),
            decreases list.len() - i,
        {
            if list[i].1.wildcard && list[i].1.domain == wanted {
                assert(self@.is_wildcard_of(list[i as int].0@, domain@));
                return Some(list[i].1.clone());
            }
            i = i + 1;
        }
        assert forall|k: Seq<char>| !self@.is_wildcard_of(k, domain@) by {
            if self@.is_wildcard_of(k, domain@) {
                let j = choose|j: int| 0 <= j < list.len() && #[trigger] list[j].0@ == k;
                assert(list[j].1.wildcard);
            }
        }
        None
    }

    /// Whether a client other than `id` holds the wildcard of `domain`.
    pub fn wildcard_taken_by_other(&self, domain: &str, id: &ClientId) -> (r: bool)
        ensures
            r == self@.wildcard_held_by_other(domain@, id@),
    {
        let wanted = String::from_str(domain);
        let list = map_list(&self.clients);
        let mut i: usize = 0;
        while i < list.len()
            invariant
                i <= list.len(),
                wanted@ == domain@,
                is_listing(self@.clients, list@),
                forall|j: int|
                    0 <= j < i ==> !((#[trigger] list[j]).1.wildcard && list[j].1.domain@
                        == domain@ && list[j].0@ != id@),
            decreases list.len() - i,
        {
            if list[i].1.wildcard && list[i].1.domain == wanted && list[i].0 != id.0 {
                assert(self@.is_wildcard_of(list[i as int].0@, domain@));
                return true;
            }
            i = i + 1;
        }
        assert(!self@.wildcard_held_by_other(domain@, id@)) by {
            if self@.wildcard_held_by_other(domain@, id@) {
                let k = choose|k: Seq<char>| #[trigger]
                    self@.is_wildcard_of(k, domain@) && k != id@;
                let j = choose|j: int| 0 <= j < list.len() && #[trigger] list[j].0@ == k;
                assert(list[j].1.wildcard);
            }
        }
        false
    }

    /// Whether a hostname is filed that is made of the host label `label`,
    /// under whatever root domain.
    pub fn label_in_use(&self, label: &str) -> (r: bool)
        ensures
            r == self@.label_filed(label@),
    {
        let wanted = String::from_str(label);
        let list = map_list(&self.hosts);
        let mut i: usize = 0;
        while i < list.len()
            invariant
                i <= list.len(),
                wanted@ == label@,
                is_listing(self@.hosts, list@),
                forall|j: int| 0 <= j < i ==> (#[trigger] list[j]).1.host@ != label@,
            decreases list.len() - i,
        {
            if list[i].1.host == wanted {
                assert(self@.files_label_at(list[i as int].0@, label@));
                return true;
            }
            i = i + 1;
        }
        assert(!self@.label_filed(label@)) by {
            if self@.label_filed(label@) {
                let h = choose|h: Seq<char>| #[trigger] self@.files_label_at(h, label@);
                let j = choose|j: int| 0 <= j < list.len() && #[trigger] list[j].0@ == h;
                assert(list[j].1.host@ == label@);
            }
        }
        false
    }

    /// Every active session, each once, in no particular order.
    pub fn get_all_clients(&self) -> (r: Vec<ConnectedClient>)
        ensures
            exists|keys: Seq<Seq<char>>| self@.lists(keys, session_views(r@)),
    {
        let list = map_list(&self.clients);
        let mut out: Vec<ConnectedClient> = Vec::new();
        let mut i: usize = 0;
        while i < list.len()
            invariant
                i <= list.len(),
                out.len() == i,
                is_listing(self@.clients, list@),
                forall|j: int| 0 <= j < i ==> (#[trigger] out[j])@ == list[j].1@,
            decreases list.len() - i,
        {
            out.push(list[i].1.clone());
            i = i + 1;
        }
        proof {
            let keys = Seq::new(list.len() as nat, |j: int| list[j].0@);
            assert forall|k: Seq<char>| self@.clients.contains_key(k) implies keys.contains(
                k,
            ) by {
                let j = choose|j: int| 0 <= j < list.len() && #[trigger] list[j].0@ == k;
                assert(keys[j] == k);
            }
            assert(self@.lists(keys, session_views(out@)));
        }
        out
    }

    /// Files the session unless its hostname belongs to another client or,
    /// for a wildcard session, another client holds the wildcard of its root
    /// domain. Check and insertion are one step: nothing can come between.
    pub fn claim(&mut self, client: ConnectedClient) -> (r: Result<(), Conflict>)
        ensures
            final(self)@ == old(self)@.claimed(client@),
            match r {
                Ok(_) => old(self)@.conflict(client@) is None,
                Err(e) => old(self)@.conflict(client@) == Some(e),
            },
            old(self)@.wf() ==> final(self)@.wf(),
    {
        let full_host = client.full_host();
        let taken = match map_get(&self.hosts, &full_host) {
            Some(c) => !c.id.same_as(&client.id),
            None => false,
        };
        if taken {
            return Err(Conflict::HostInUse);
        }
        if client.wildcard && self.wildcard_taken_by_other(client.domain.as_str(), &client.id) {
            return Err(Conflict::WildcardInUse);
        }
        self.add(client);
        Ok(())
    }
}

/// The sessions of a list, as the registry reads them.
pub open spec fn session_views(v: Seq<ConnectedClient>) -> Seq<ClientView> {
    Seq::new(v.len(), |i: int| v[i]@)
}

/// Filing, claiming and removing keep every session under its own id and
/// its own hostname.
pub proof fn lemma_well_formed_is_kept(v: RegistryView, c: ClientView)
    requires
        v.wf(),
    ensures
        RegistryView::empty().wf(),
        v.added(c).wf(),
        v.host_updated(c).wf(),
        v.claimed(c).wf(),
        v.removed(c).wf(),
{
}

/// Removing a session never deletes, nor changes, a hostname that is filed
/// under another client's id.
pub proof fn lemma_remove_spares_other_owners(v: RegistryView, c: ClientView, h: Seq<char>)
    requires
        v.hosts.contains_key(h),
        v.hosts[h].id != c.id,
    ensures
        v.removed(c).hosts.contains_key(h),
        v.removed(c).hosts[h] == v.hosts[h],
{
}

/// Of two sessions of different clients that claim the same hostname one
/// after the other, the second is refused whenever the first is admitted;
/// where each could have had the hostname alone, the first is admitted and
/// is the one owner afterwards.
pub proof fn lemma_one_claim_wins(v: RegistryView, a: ClientView, b: ClientView)
    requires
        a.full_host() == b.full_host(),
        a.id != b.id,
    ensures
        v.conflict(a) is None ==> v.claimed(a).conflict(b) == Some(Conflict::HostInUse),
        v.conflict(a) is None ==> v.claimed(a).claimed(b).hosts[a.full_host()] == a,
        v.conflict(a) is Some && v.conflict(b) is None ==> v.claimed(a).claimed(b).hosts[a.full_host()]
            == b,
{
}

/// Claims, removals and updates of the host index keep at most one wildcard
/// session for each root domain, and an empty registry has none. Filing
/// without the check keeps it where the session is no wildcard session, or
/// no other client holds the wildcard of its root domain.
pub proof fn lemma_wildcard_stays_unique(v: RegistryView, c: ClientView)
    requires
        v.wildcard_unique(),
    ensures
        RegistryView::empty().wildcard_unique(),
        v.claimed(c).wildcard_unique(),
        v.removed(c).wildcard_unique(),
        v.host_updated(c).wildcard_unique(),
        !(c.wildcard && v.wildcard_held_by_other(c.domain, c.id)) ==> v.added(
            c,
        ).wildcard_unique(),
{
    let filed = v.added(c);
    if !(c.wildcard && v.wildcard_held_by_other(c.domain, c.id)) {
        assert forall|a: Seq<char>, b: Seq<char>, domain: Seq<char>|
            #[trigger] filed.is_wildcard_of(a, domain) && #[trigger] filed.is_wildcard_of(
                b,
                domain,
            ) implies a == b by {
            if a != c.id {
                assert(v.is_wildcard_of(a, domain));
            }
            if b != c.id {
                assert(v.is_wildcard_of(b, domain));
            }
        }
    }
    let updated = v.host_updated(c);
    assert forall|a: Seq<char>, b: Seq<char>, domain: Seq<char>|
        #[trigger] updated.is_wildcard_of(a, domain) && #[trigger] updated.is_wildcard_of(
            b,
            domain,
        ) implies a == b by {
        assert(v.is_wildcard_of(a, domain));
        assert(v.is_wildcard_of(b, domain));
    }
    let after = v.claimed(c);
    assert forall|a: Seq<char>, b: Seq<char>, domain: Seq<char>|
        #[trigger] after.is_wildcard_of(a, domain) && #[trigger] after.is_wildcard_of(
            b,
            domain,
        ) implies a == b by {
        if v.conflict(c) is None {
            if a != c.id {
                assert(v.is_wildcard_of(a, domain));
            }
            if b != c.id {
                assert(v.is_wildcard_of(b, domain));
            }
        }
    }
    let gone = v.removed(c);
    assert forall|a: Seq<char>, b: Seq<char>, domain: Seq<char>|
        #[trigger] gone.is_wildcard_of(a, domain) && #[trigger] gone.is_wildcard_of(
            b,
            domain,
        ) implies a == b by {
        assert(v.is_wildcard_of(a, domain));
        assert(v.is_wildcard_of(b, domain));
    }
}

} // verus!
