//! Looking a server up in the cluster, and watching over the servers that were started.
use vstd::hash_map::StringHashMap;
use vstd::prelude::*;

use crate::address::{sanitize_addr, sanitized};
use crate::kube_cache::{serving_name, KubeCache};
use crate::kubernetes::{Deployment, Service};
use crate::opaque_error::OpaqueError;
use crate::server::Server;

verus! {

/// How far a lookup has come.
#[derive(Debug)]
pub enum QueryStage {
    /// The deployments are to be listed.
    Deployments,
    /// The deployment has a name; the services are to be listed.
    Services { dep_name: String },
    /// Both have names; the deployment is to be fetched.
    Deployment { dep_name: String, srv_name: String },
    /// The deployment is there; the service is to be fetched.
    Service { deployment: Deployment, srv_name: String },
}

/// What is to be asked of the cluster.
#[derive(Debug)]
pub enum QueryAction {
    ListDeployments,
    ListServices,
    GetDeployment(String),
    GetService(String),
}

/// What the cluster answered. An object that could not be fetched comes with the reason.
#[derive(Debug)]
pub enum QueryEvent {
    Deployments(Vec<Deployment>),
    Services(Vec<Service>),
    Deployment(Result<Deployment, String>),
    Service(Result<Service, String>),
}

/// What comes of an answer.
pub enum QueryStep {
    /// There is more to ask.
    Next(ServerQuery),
    /// The server has been found.
    Found(Server),
    /// There is no such server.
    Failed(OpaqueError),
}

/// The lookup of the server for an address and a port.
#[derive(Debug)]
pub struct ServerQuery {
    pub addr: String,
    pub port: String,
    pub stage: QueryStage,
}

impl ServerQuery {
    /// Whether `event` answers what is asked.
    pub open spec fn answered_by(self, event: QueryEvent) -> bool {
        match self.stage {
            QueryStage::Deployments => event is Deployments,
            QueryStage::Services { .. } => event is Services,
            QueryStage::Deployment { .. } => event is Deployment,
            QueryStage::Service { .. } => event is Service,
        }
    }

    /// Whether this is the lookup for the same address and port as `other`.
    pub open spec fn same_target(self, other: ServerQuery) -> bool {
        self.addr@ == other.addr@ && self.port@ == other.port@
    }

    /// Whether this is the lookup, of which nothing has been done, for the address `addr` of a
    /// handshake and the port `port`.
    pub open spec fn looks_up(self, addr: Seq<char>, port: Seq<char>) -> bool {
        &&& self.addr@ == sanitized(addr)
        &&& self.port@ == port
        &&& self.stage is Deployments
    }

    /// The lookup of the server for the address `addr` of a handshake and the port `port`.
    pub fn query_server(addr: &str, port: &str) -> (query: ServerQuery)
        ensures
            query.looks_up(addr@, port@),
    {
        ServerQuery {
            addr: sanitize_addr(addr).to_string(),
            port: port.to_string(),
            stage: QueryStage::Deployments,
        }
    }

    /// Whether `action` is what is to be asked of the cluster next.
    pub open spec fn asks(self, action: QueryAction) -> bool {
        match self.stage {
            QueryStage::Deployments => action is ListDeployments,
            QueryStage::Services { .. } => action is ListServices,
            QueryStage::Deployment { dep_name, .. } => action matches QueryAction::GetDeployment(
                name,
            ) && name@ == dep_name@,
            QueryStage::Service { srv_name, .. } => action matches QueryAction::GetService(name)
                && name@ == srv_name@,
        }
    }

    /// What is to be asked of the cluster next.
    pub fn action(&self) -> (action: QueryAction)
        ensures
            self.asks(action),
    {
        match &self.stage {
            QueryStage::Deployments => QueryAction::ListDeployments,
            QueryStage::Services { .. } => QueryAction::ListServices,
            QueryStage::Deployment { dep_name, .. } => {
                QueryAction::GetDeployment(dep_name.clone())
            },
            QueryStage::Service { srv_name, .. } => QueryAction::GetService(srv_name.clone()),
        }
    }

    /// What `event` leads to, where it answers what is asked.
    pub open spec fn leads_to(self, event: QueryEvent, step: QueryStep) -> bool {
        match (self.stage, event) {
            (QueryStage::Deployments, QueryEvent::Deployments(listed)) => match serving_name(
                listed@,
                self.addr@,
                self.port@,
            ) {
                Some(name) => {
                    &&& step matches QueryStep::Next(next)
                    &&& next.same_target(self)
                    &&& next.stage matches QueryStage::Services { dep_name }
                    &&& dep_name@ == name
                },
                None => step matches QueryStep::Failed(e) && e.context@
                    == "Failed to find deployment name by addr"@,
            },
            (
                QueryStage::Services { dep_name: known },
                QueryEvent::Services(listed),
            ) => match serving_name(listed@, self.addr@, self.port@) {
                Some(name) => {
                    &&& step matches QueryStep::Next(next)
                    &&& next.same_target(self)
                    &&& next.stage matches QueryStage::Deployment { dep_name, srv_name }
                    &&& dep_name@ == known@
                    &&& srv_name@ == name
                },
                None => step matches QueryStep::Failed(e) && e.context@
                    == "Failed to find service name by addr"@,
            },
            (
                QueryStage::Deployment { srv_name: known, .. },
                QueryEvent::Deployment(fetched),
            ) => match fetched {
                Ok(object) => {
                    &&& step matches QueryStep::Next(next)
                    &&& next.same_target(self)
                    &&& next.stage matches QueryStage::Service { deployment, srv_name }
                    &&& deployment == object
                    &&& srv_name@ == known@
                },
                Err(reason) => step matches QueryStep::Failed(e) && e.context@
                    == "Failed to query cache for deployment with dep_name err:"@ + reason@,
            },
            (
                QueryStage::Service { deployment, .. },
                QueryEvent::Service(fetched),
            ) => match fetched {
                Ok(object) => {
                    &&& step matches QueryStep::Found(server)
                    &&& server.dep == deployment
                    &&& server.srv == object
                    &&& server.server_addr@ == self.addr@
                },
                Err(reason) => step matches QueryStep::Failed(e) && e.context@
                    == "Failed to query cache for service with dep_name err:"@ + reason@,
            },
            _ => false,
        }
    }

    /// Whether `event` answers what is asked.
    pub fn answers(&self, event: &QueryEvent) -> (answered: bool)
        ensures
            answered == self.answered_by(*event),
    {
        match (&self.stage, event) {
            (QueryStage::Deployments, QueryEvent::Deployments(_)) => true,
            (QueryStage::Services { .. }, QueryEvent::Services(_)) => true,
            (QueryStage::Deployment { .. }, QueryEvent::Deployment(_)) => true,
            (QueryStage::Service { .. }, QueryEvent::Service(_)) => true,
            _ => false,
        }
    }

    /// Goes on with what the cluster answered.
    pub fn step(self, event: QueryEvent) -> (step: QueryStep)
        requires
            self.answered_by(event),
        ensures
            self.leads_to(event, step),
    {
        let addr = self.addr;
        let port = self.port;
        match (self.stage, event) {
            (QueryStage::Deployments, QueryEvent::Deployments(listed)) => {
                let cache = KubeCache { client: (), deployments: listed, services: Vec::new() };
                match cache.query_dep_addr(addr.as_str(), port.as_str()) {
                    Some(dep_name) => QueryStep::Next(
                        ServerQuery { addr, port, stage: QueryStage::Services { dep_name } },
                    ),
                    None => QueryStep::Failed(
                        OpaqueError::create("Failed to find deployment name by addr"),
                    ),
                }
            },
            (QueryStage::Services { dep_name }, QueryEvent::Services(listed)) => {
                let cache = KubeCache { client: (), deployments: Vec::new(), services: listed };
                match cache.query_srv_addr(addr.as_str(), port.as_str()) {
                    Some(srv_name) => QueryStep::Next(
                        ServerQuery {
                            addr,
                            port,
                            stage: QueryStage::Deployment { dep_name, srv_name },
                        },
                    ),
                    None => QueryStep::Failed(
                        OpaqueError::create("Failed to find service name by addr"),
                    ),
                }
            },
            (QueryStage::Deployment { srv_name, .. }, QueryEvent::Deployment(fetched)) => {
                match fetched {
                    Ok(deployment) => QueryStep::Next(
                        ServerQuery {
                            addr,
                            port,
                            stage: QueryStage::Service { deployment, srv_name },
                        },
                    ),
                    Err(reason) => {
                        let mut text =
                            "Failed to query cache for deployment with dep_name err:".to_string();
                        text.append(reason.as_str());
                        QueryStep::Failed(OpaqueError::from(text))
                    },
                }
            },
            (QueryStage::Service { deployment, .. }, QueryEvent::Service(fetched)) => {
                match fetched {
                    Ok(service) => QueryStep::Found(
                        Server { dep: deployment, srv: service, server_addr: addr },
                    ),
                    Err(reason) => {
                        let mut text =
                            "Failed to query cache for service with dep_name err:".to_string();
                        text.append(reason.as_str());
                        QueryStep::Failed(OpaqueError::from(text))
                    },
                }
            },
            _ => vstd::pervasive::unreached(),
        }
    }
}

/// The server that is to be watched over.
#[derive(Clone, Debug)]
pub struct WatchTarget {
    pub addr: String,
    pub port: String,
    pub full_addr: String,
}

/// What the watchers of servers are kept under: the address and the port.
pub open spec fn watch_key(addr: Seq<char>, port: Seq<char>) -> Seq<char> {
    addr + ":"@ + port
}

/// Servers with different addresses or ports have watchers of their own.
pub proof fn law_watch_key_injective(
    addr_a: Seq<char>,
    port_a: Seq<char>,
    addr_b: Seq<char>,
    port_b: Seq<char>,
)
    requires
        !port_a.contains(':'),
        !port_b.contains(':'),
        watch_key(addr_a, port_a) == watch_key(addr_b, port_b),
    ensures
        addr_a == addr_b,
        port_a == port_b,
{
    reveal_strlit(":");
    let a = watch_key(addr_a, port_a);
    let b = watch_key(addr_b, port_b);
    assert(a.len() == addr_a.len() + 1 + port_a.len());
    assert(b.len() == addr_b.len() + 1 + port_b.len());
    assert(a[addr_a.len() as int] == ':');
    assert(b[addr_b.len() as int] == ':');
    if addr_a.len() < addr_b.len() {
        let at = addr_b.len() - addr_a.len() - 1;
        assert(a[addr_a.len() + 1 + at] == port_a[at]);
        assert(port_a.contains(port_a[at]));
    } else if addr_b.len() < addr_a.len() {
        let at = addr_a.len() - addr_b.len() - 1;
        assert(b[addr_b.len() + 1 + at] == port_b[at]);
        assert(port_b.contains(port_b[at]));
    }
    assert(addr_a =~= a.take(addr_a.len() as int));
    assert(addr_b =~= b.take(addr_b.len() as int));
    assert(port_a =~= a.skip(addr_a.len() as int + 1));
    assert(port_b =~= b.skip(addr_b.len() as int + 1));
}

/// The server that is to be watched over, given its address and its port.
pub fn watch_target(addr: Option<String>, port: Option<String>) -> (target: Result<
    WatchTarget,
    OpaqueError,
>)
    ensures
        match (addr, port) {
            (Some(a), Some(p)) => {
                &&& target matches Ok(t)
                &&& t.addr@ == a@
                &&& t.port@ == p@
                &&& t.full_addr@ == watch_key(a@, p@)
            },
            (None, _) => target matches Err(e) && e.context@ == "could not get addr of server"@,
            (Some(_), None) => target matches Err(e) && e.context@
                == "could not get port of server"@,
        },
{
    let addr = match addr {
        Some(addr) => addr,
        None => return Err(OpaqueError::from("could not get addr of server")),
    };
    let port = match port {
        Some(port) => port,
        None => return Err(OpaqueError::from("could not get port of server")),
    };
    let mut full_addr = addr.clone();
    full_addr.append(":");
    full_addr.append(port.as_str());
    Ok(WatchTarget { addr, port, full_addr })
}

/// The cluster, and the watchers of the servers that were started. `C` is the client of the
/// cluster, and `H` the handle of a watcher. The view is that of the watchers.
#[verifier::reject_recursive_types(H)]
pub struct McApi<C, H> {
    cache: KubeCache<C>,
    map: StringHashMap<H>,
}

impl<C, H> View for McApi<C, H> {
    type V = Map<Seq<char>, H>;

    closed spec fn view(&self) -> Map<Seq<char>, H> {
        self.map@
    }
}

impl<C, H> McApi<C, H> {
    /// The cluster.
    pub closed spec fn cluster(self) -> KubeCache<C> {
        self.cache
    }

    /// The cluster behind `client`, of which no server is watched over, or nothing where no client
    /// could be made.
    pub fn create(client: Option<C>) -> (api: Option<Self>)
        ensures
            match client {
                Some(made) => {
                    &&& api matches Some(a)
                    &&& a.cluster().client == made
                    &&& a.cluster().deployments@ == Seq::<Deployment>::empty()
                    &&& a.cluster().services@ == Seq::<Service>::empty()
                    &&& a@ == Map::<Seq<char>, H>::empty()
                },
                None => api is None,
            },
    {
        Some(McApi { cache: KubeCache::create(client)?, map: StringHashMap::new() })
    }

    /// The client of the cluster.
    pub fn client(&self) -> (client: &C)
        ensures
            *client == self.cluster().client,
    {
        &self.cache.client
    }

    /// The watcher that is kept under `full_addr`.
    pub fn watcher(&self, full_addr: &str) -> (handle: Option<&H>)
        ensures
            match handle {
                Some(h) => self@.contains_key(full_addr@) && *h == self@[full_addr@],
                None => !self@.contains_key(full_addr@),
            },
    {
        self.map.get(full_addr)
    }

    /// Keeps a watcher under `full_addr`, in place of the one that may have been there.
    pub fn keep_watcher(&mut self, full_addr: String, handle: H)
        ensures
            final(self)@ == old(self)@.insert(full_addr@, handle),
            final(self).cluster() == old(self).cluster(),
    {
        self.map.insert(full_addr, handle);
    }

    /// Keeps the watcher under `full_addr` no more.
    pub fn remove_watcher(&mut self, full_addr: &str)
        ensures
            final(self)@ == old(self)@.remove(full_addr@),
            final(self).cluster() == old(self).cluster(),
    {
        self.map.remove(full_addr);
    }

    /// Whether a new watcher is to be started for a server: if none is kept for it, or the one that
    /// is kept has ended. `finished` says of the one that is kept whether it has ended.
    pub fn start_watch(&self, target: &WatchTarget, finished: Option<bool>) -> (start: bool)
        requires
            finished is Some <==> self@.contains_key(target.full_addr@),
        ensures
            start <==> !self@.contains_key(target.full_addr@) || finished == Some(true),
    {
        match finished {
            Some(ended) => ended,
            None => true,
        }
    }
}

/// A lookup whose four answers lead on finds the server: it is made of the two objects that were
/// fetched, under the address that is looked up, and those were asked for by the names of the first
/// listed objects that serve the address or the port.
pub proof fn law_lookup_finds_the_server(
    query: ServerQuery,
    addr: Seq<char>,
    port: Seq<char>,
    deployments: Vec<Deployment>,
    services: Vec<Service>,
    deployment: Deployment,
    service: Service,
    after: (ServerQuery, ServerQuery, ServerQuery),
    asked: (QueryAction, QueryAction),
    last: QueryStep,
)
    requires
        query.looks_up(addr, port),
        query.leads_to(QueryEvent::Deployments(deployments), QueryStep::Next(after.0)),
        after.0.leads_to(QueryEvent::Services(services), QueryStep::Next(after.1)),
        after.1.asks(asked.0),
        after.1.leads_to(QueryEvent::Deployment(Ok(deployment)), QueryStep::Next(after.2)),
        after.2.asks(asked.1),
        after.2.leads_to(QueryEvent::Service(Ok(service)), last),
    ensures
        asked.0 matches QueryAction::GetDeployment(name) && serving_name(
            deployments@,
            sanitized(addr),
            port,
        ) == Some(name@),
        asked.1 matches QueryAction::GetService(name) && serving_name(
            services@,
            sanitized(addr),
            port,
        ) == Some(name@),
        last matches QueryStep::Found(server) && server.dep == deployment && server.srv == service
            && server.server_addr@ == sanitized(addr),
{
}

/// A lookup begins with the address that is looked up for the one of the handshake, with the port
/// as it is, and with the question for the deployments.
pub proof fn law_lookup_begins(addr: &str, port: &str, query: ServerQuery, action: QueryAction)
    requires
        call_ensures(ServerQuery::query_server, (addr, port), query),
        call_ensures(ServerQuery::action, (&query,), action),
    ensures
        query.looks_up(addr@, port@),
        query.addr@ == sanitized(addr@),
        query.port@ == port@,
        query.stage is Deployments,
        action is ListDeployments,
{
}

/// What a lookup asks for: first the deployments, then the services, then the deployment and the
/// service by the names that were found.
pub proof fn law_lookup_asks_in_order(query: ServerQuery, action: QueryAction)
    requires
        call_ensures(ServerQuery::action, (&query,), action),
    ensures
        query.asks(action),
        query.stage is Deployments <==> action is ListDeployments,
        query.stage is Services <==> action is ListServices,
        query.stage matches QueryStage::Deployment { dep_name, .. } ==> (
        action matches QueryAction::GetDeployment(name) && name@ == dep_name@),
        query.stage matches QueryStage::Service { srv_name, .. } ==> (
        action matches QueryAction::GetService(name) && name@ == srv_name@),
{
}

/// A lookup fails just where no name is found for the address and the port, or an object cannot be
/// fetched; it finds the server just with its last answer; and else it goes on with the same
/// address and the same port, one question further.
pub proof fn law_lookup_step(query: ServerQuery, event: QueryEvent, step: QueryStep)
    requires
        call_ensures(ServerQuery::step, (query, event), step),
        query.answered_by(event),
    ensures
        query.leads_to(event, step),
        step is Failed <==> match event {
            QueryEvent::Deployments(listed) => serving_name(
                listed@,
                query.addr@,
                query.port@,
            ) is None,
            QueryEvent::Services(listed) => serving_name(
                listed@,
                query.addr@,
                query.port@,
            ) is None,
            QueryEvent::Deployment(fetched) => fetched is Err,
            QueryEvent::Service(fetched) => fetched is Err,
        },
        step is Found <==> (event matches QueryEvent::Service(fetched) && fetched is Ok),
        step matches QueryStep::Next(next) ==> {
            &&& next.addr@ == query.addr@
            &&& next.port@ == query.port@
            &&& event is Deployments <==> next.stage is Services
            &&& event is Services <==> next.stage is Deployment
            &&& event is Deployment <==> next.stage is Service
        },
{
}

/// What the answers of a lookup are kept for: the names that are found, the deployment that is
/// fetched, and at last the server, made of both objects and the address.
pub proof fn law_lookup_keeps_what_it_found(query: ServerQuery, event: QueryEvent, step: QueryStep)
    requires
        query.leads_to(event, step),
    ensures
        step matches QueryStep::Next(next) ==> match (query.stage, event, next.stage) {
            (
                QueryStage::Deployments,
                QueryEvent::Deployments(listed),
                QueryStage::Services { dep_name },
            ) => serving_name(listed@, query.addr@, query.port@) == Some(dep_name@),
            (
                QueryStage::Services { dep_name: before },
                QueryEvent::Services(listed),
                QueryStage::Deployment { dep_name, srv_name },
            ) => dep_name@ == before@ && serving_name(listed@, query.addr@, query.port@) == Some(
                srv_name@,
            ),
            (
                QueryStage::Deployment { srv_name: before, .. },
                QueryEvent::Deployment(Ok(fetched)),
                QueryStage::Service { deployment, srv_name },
            ) => srv_name@ == before@ && deployment == fetched,
            _ => false,
        },
        step matches QueryStep::Found(server) ==> match (query.stage, event) {
            (QueryStage::Service { deployment, .. }, QueryEvent::Service(Ok(fetched))) => {
                server.dep == deployment && server.srv == fetched && server.server_addr@
                    == query.addr@
            },
            _ => false,
        },
        step matches QueryStep::Failed(e) ==> match event {
            QueryEvent::Deployments(_) => e.context@ == "Failed to find deployment name by addr"@,
            QueryEvent::Services(_) => e.context@ == "Failed to find service name by addr"@,
            QueryEvent::Deployment(Err(reason)) => e.context@
                == "Failed to query cache for deployment with dep_name err:"@ + reason@,
            QueryEvent::Service(Err(reason)) => e.context@
                == "Failed to query cache for service with dep_name err:"@ + reason@,
            _ => false,
        },
{
}

/// Every question of a lookup takes the answer to it, and no other.
pub proof fn law_lookup_takes_its_answers(query: ServerQuery, event: QueryEvent, answered: bool)
    requires
        call_ensures(ServerQuery::answers, (&query, &event), answered),
    ensures
        answered == query.answered_by(event),
        answered <==> {
            ||| query.stage is Deployments && event is Deployments
            ||| query.stage is Services && event is Services
            ||| query.stage is Deployment && event is Deployment
            ||| query.stage is Service && event is Service
        },
{
}

/// A server is watched over under its address, a colon and its port, and only if it has both.
pub proof fn law_watch_target(
    addr: Option<String>,
    port: Option<String>,
    target: Result<WatchTarget, OpaqueError>,
)
    requires
        call_ensures(watch_target, (addr, port), target),
    ensures
        target is Ok <==> addr is Some && port is Some,
        target matches Ok(t) ==> {
            &&& t.addr@ == addr->Some_0@
            &&& t.port@ == port->Some_0@
            &&& t.full_addr@ == addr->Some_0@ + seq![':'] + port->Some_0@
        },
{
    reveal_strlit(":");
    assert(":"@ =~= seq![':']);
}

/// A watcher is started unless one that has not ended is kept for the same server.
pub proof fn law_no_second_watcher<C, H>(
    api: McApi<C, H>,
    target: WatchTarget,
    finished: Option<bool>,
    start: bool,
)
    requires
        finished is Some <==> api@.contains_key(target.full_addr@),
        call_ensures(McApi::<C, H>::start_watch, (&api, &target, finished), start),
    ensures
        start <==> finished != Some(false),
{
    if let Some(ended) = finished {
        assert(ended || !ended);
    }
}

/// What is kept under a key is what is given for it, and nothing else is.
pub proof fn law_watcher_is_kept<C, H>(api: McApi<C, H>, full_addr: &str, handle: Option<&H>)
    requires
        call_ensures(McApi::<C, H>::watcher, (&api, full_addr), handle),
    ensures
        handle is Some <==> api@.dom().contains(full_addr@),
        handle matches Some(h) ==> api@[full_addr@] == *h,
{
}

/// Keeping a watcher, or keeping it no more, changes what is kept under its own key, and nothing
/// else.
pub proof fn law_watchers_are_kept_apart<C, H>()
    ensures
        forall|api: &mut McApi<C, H>, full_addr: String, handle: H, unit: ()| #[trigger]
            call_ensures(McApi::<C, H>::keep_watcher, (api, full_addr, handle), unit) ==> {
                &&& (*final(api))@.dom() == (*api)@.dom().insert(full_addr@)
                &&& (*final(api))@[full_addr@] == handle
                &&& forall|other: Seq<char>|
                    other != full_addr@ && (*api)@.dom().contains(other)
                        ==> #[trigger] (*final(api))@[other] == (*api)@[other]
                &&& (*final(api)).cluster() == (*api).cluster()
            },
        forall|api: &mut McApi<C, H>, full_addr: &str, unit: ()| #[trigger]
            call_ensures(McApi::<C, H>::remove_watcher, (api, full_addr), unit) ==> {
                &&& (*final(api))@.dom() == (*api)@.dom().remove(full_addr@)
                &&& forall|other: Seq<char>|
                    other != full_addr@ && (*api)@.dom().contains(other)
                        ==> #[trigger] (*final(api))@[other] == (*api)@[other]
                &&& (*final(api)).cluster() == (*api).cluster()
            },
{
}

/// There is no cluster, and nothing is watched over, without a client; with one there is that.
pub proof fn law_nothing_without_a_client<C, H>(
    client: Option<C>,
    cache: Option<KubeCache<C>>,
    api: Option<McApi<C, H>>,
)
    requires
        call_ensures(KubeCache::<C>::create, (client,), cache),
        call_ensures(McApi::<C, H>::create, (client,), api),
    ensures
        cache is Some <==> client is Some,
        api is Some <==> client is Some,
        cache matches Some(c) ==> client == Some(c.client) && c.deployments@.len() == 0
            && c.services@.len() == 0,
        api matches Some(a) ==> client == Some(a.cluster().client) && a@.dom()
            =~= Set::<Seq<char>>::empty(),
{
}

} // verus!
