//! A server in the cluster: what its objects say of it, and how it is steered.
use vstd::prelude::*;

use crate::kubernetes::{
    name_or_error, text_of, Container, Deployment, DeploymentStatus, EnvVar, Service, ServicePort,
};
use crate::mc_server::ServerDeploymentStatus;
use crate::opaque_error::OpaqueError;
use crate::packets::serverbound::handshake::{handshake_data, Handshake, HandshakeFields};
use crate::packets::{frame, Packet};
use crate::text::{debug_quoted, decimal, decimal_text, quoted_text, same_text};
use crate::types::{var_int_bytes, var_string_fits, UShort, VarInt, VarString};

verus! {

/// The name of the port that players connect to.
pub const ROUTER_PORT: &'static str = "mc-router";

/// The environment variable that holds the message of the day.
pub const MOTD_VARIABLE: &'static str = "MOTD";

/// Whether a port is the one that players connect to.
pub open spec fn is_router(port: ServicePort) -> bool {
    port.name matches Some(name) && name@ == ROUTER_PORT@
}

/// Whether the ports of a service say which of them players connect to: every port that comes
/// before that one has a name.
pub open spec fn ports_named(ports: Seq<ServicePort>) -> bool
    decreases ports.len(),
{
    ports.len() == 0 || (ports[0].name is Some && (is_router(ports[0]) || ports_named(
        ports.drop_first(),
    )))
}

/// The first port that players connect to.
pub open spec fn router_port(ports: Seq<ServicePort>) -> Option<ServicePort>
    decreases ports.len(),
{
    if ports.len() == 0 {
        None
    } else if is_router(ports[0]) {
        Some(ports[0])
    } else {
        router_port(ports.drop_first())
    }
}

/// The ports of a service.
pub open spec fn ports_of(service: Service) -> Option<Seq<ServicePort>> {
    match service.spec {
        Some(spec) => match spec.ports {
            Some(ports) => Some(ports@),
            None => None,
        },
        None => None,
    }
}

/// Whether a service says which port players connect to.
pub open spec fn has_port_list(service: Service) -> bool {
    ports_of(service) matches Some(ports) && ports_named(ports)
}

/// The port of the nodes of the cluster that leads to a service.
pub open spec fn node_port(service: Service) -> Option<i32> {
    match ports_of(service) {
        Some(ports) => match router_port(ports) {
            Some(port) => port.node_port,
            None => None,
        },
        None => None,
    }
}

/// The value of the first variable that holds the message of the day.
pub open spec fn motd_of_env(env: Seq<EnvVar>) -> Option<Seq<char>>
    decreases env.len(),
{
    if env.len() == 0 {
        None
    } else if env[0].name@ == MOTD_VARIABLE@ {
        text_of(env[0].value)
    } else {
        motd_of_env(env.drop_first())
    }
}

/// The message of the day of a container.
pub open spec fn motd_of_container(container: Container) -> Option<Seq<char>> {
    match container.env {
        Some(env) => motd_of_env(env@),
        None => None,
    }
}

/// The message of the day of a deployment: that of its first container.
pub open spec fn motd(deployment: Deployment) -> Option<Seq<char>> {
    match deployment.spec {
        Some(spec) => match spec.template {
            Some(pod) => {
                if pod.containers@.len() == 0 {
                    None
                } else {
                    motd_of_container(pod.containers@[0])
                }
            },
            None => None,
        },
        None => None,
    }
}

/// The count of replicas that a status gives, or -1.
pub open spec fn count(replicas: Option<i32>) -> int {
    match replicas {
        Some(n) => n as int,
        None => -1,
    }
}

/// What a deployment is up to, where `connectable` says whether a server of which a replica is
/// ready takes a connection.
pub open spec fn deployment_status(
    status: DeploymentStatus,
    connectable: bool,
) -> ServerDeploymentStatus {
    if count(status.replicas) <= 0 {
        ServerDeploymentStatus::Offline
    } else if count(status.ready_replicas) <= 0 {
        ServerDeploymentStatus::Starting
    } else if connectable {
        ServerDeploymentStatus::Connectable
    } else {
        ServerDeploymentStatus::PodOk
    }
}

/// Whether it takes an attempt to connect to know what a deployment is up to.
pub open spec fn needs_connection(status: DeploymentStatus) -> bool {
    count(status.replicas) > 0 && count(status.ready_replicas) > 0
}

/// Whether it can be made out what the server of a deployment and a service is up to: if it takes
/// an attempt to connect, the service says where.
pub open spec fn answerable(deployment: Deployment, service: Service) -> bool {
    (deployment.status matches Some(status) && needs_connection(status)) ==> has_port_list(service)
}

/// Whether it takes an attempt to connect to know what a deployment is up to.
pub fn deployment_needs_connection(deployment: &Deployment) -> (needed: bool)
    ensures
        needed == (deployment.status matches Some(status) && needs_connection(status)),
{
    match &deployment.status {
        Some(status) => status.replicas.unwrap_or(-1) > 0 && status.ready_replicas.unwrap_or(-1)
            > 0,
        None => false,
    }
}

/// Whether a service says which port players connect to.
pub fn lists_ports(service: &Service) -> (listed: bool)
    ensures
        listed == has_port_list(*service),
{
    let ports = match &service.spec {
        Some(spec) => match &spec.ports {
            Some(ports) => ports,
            None => return false,
        },
        None => return false,
    };
    assert(ports@.skip(0) =~= ports@);
    for i in 0..ports.len()
        invariant
            ports_of(*service) == Some(ports@),
            ports_named(ports@.skip(i as int)) == ports_named(ports@),
    {
        let ghost rest = ports@.skip(i as int);
        assert(rest.drop_first() =~= ports@.skip(i + 1));
        assert(rest[0] == ports@[i as int]);
        match &ports[i].name {
            Some(name) => {
                if same_text(name.as_str(), ROUTER_PORT) {
                    return true;
                }
            },
            None => return false,
        }
    }
    true
}

/// A change of the number of replicas of the deployment `name`.
#[derive(Debug)]
pub struct ScaleRequest {
    pub name: String,
    pub replicas: i32,
    pub server_addr: String,
}

impl ScaleRequest {
    /// Whether the change sets the number of replicas of `server` to `num`. The deployment has the
    /// name of the service.
    pub open spec fn scales(self, server: Server, num: i32) -> bool {
        &&& self.name@ == name_or_error(server.srv.metadata)
        &&& self.replicas == num
        &&& self.server_addr@ == server.server_addr@
    }
}

/// The packets that ask a server to describe itself.
#[derive(Debug)]
pub struct DescriptionRequest {
    pub handshake: Handshake,
    pub status_request: Packet,
}

/// The fields of the handshake that asks the server at `addr` to describe itself.
pub open spec fn description_fields(addr: Seq<char>) -> HandshakeFields {
    HandshakeFields {
        protocol_version: 746,
        protocol_version_bytes: var_int_bytes(746),
        server_address: addr,
        server_port: 1234,
        next_state: 1,
        next_state_bytes: var_int_bytes(1),
    }
}

impl DescriptionRequest {
    /// Whether the packets ask the server at `addr` to describe itself.
    pub open spec fn asks(self, addr: Seq<char>) -> bool {
        &&& self.handshake.fields() == description_fields(addr)
        &&& self.handshake.all@ == frame(
            var_int_bytes(0),
            handshake_data(description_fields(addr)),
        )
        &&& self.status_request.id.int_value() == 0
        &&& self.status_request.data@ == Seq::<u8>::empty()
        &&& self.status_request.all@ == frame(var_int_bytes(0), seq![])
    }
}

/// How many players are on a server, given what could be made out of its answer.
pub fn description_reply(players: Option<i32>) -> (online: Result<i32, OpaqueError>)
    ensures
        match players {
            Some(n) => online == Ok::<i32, OpaqueError>(n),
            None => online matches Err(e) && e.context@
                == "failed to parse status response from server"@,
        },
{
    match players {
        Some(n) => Ok(n),
        None => Err(OpaqueError::create("failed to parse status response from server")),
    }
}

/// A server in the cluster.
#[derive(Clone, Debug)]
pub struct Server {
    pub dep: Deployment,
    pub srv: Service,
    pub server_addr: String,
}

impl Server {
    /// The rendering of the server.
    pub open spec fn debug_view(self) -> Seq<char> {
        "KubeServer { dep: "@ + debug_quoted(name_or_error(self.dep.metadata)) + ", srv: "@
            + debug_quoted(name_or_error(self.srv.metadata)) + ", server_addr: "@ + debug_quoted(
            self.server_addr@,
        ) + " }"@
    }

    /// Renders the server.
    pub fn debug_text(&self) -> (text: String)
        ensures
            text@ == self.debug_view(),
    {
        let dep = self.dep.metadata.name_or_error();
        let srv = self.srv.metadata.name_or_error();
        Server::render(
            quoted_text(dep.as_str()),
            quoted_text(srv.as_str()),
            quoted_text(self.server_addr.as_str()),
        )
    }

    /// Renders a server, given the quoted names of its objects and its quoted address.
    pub fn render(dep: String, srv: String, server_addr: String) -> (text: String)
        ensures
            text@ == "KubeServer { dep: "@ + dep@ + ", srv: "@ + srv@ + ", server_addr: "@
                + server_addr@ + " }"@,
    {
        let mut text = "KubeServer { dep: ".to_string();
        text.append(dep.as_str());
        text.append(", srv: ");
        text.append(srv.as_str());
        text.append(", server_addr: ");
        text.append(server_addr.as_str());
        text.append(" }");
        text
    }

    /// The rendering of the server with one field to a line.
    pub open spec fn pretty_view(self) -> Seq<char> {
        "KubeServer {\n    dep: "@ + debug_quoted(name_or_error(self.dep.metadata))
            + ",\n    srv: "@ + debug_quoted(name_or_error(self.srv.metadata))
            + ",\n    server_addr: "@ + debug_quoted(self.server_addr@) + ",\n}"@
    }

    /// Renders the server with one field to a line.
    pub fn pretty_text(&self) -> (text: String)
        ensures
            text@ == self.pretty_view(),
    {
        let dep = self.dep.metadata.name_or_error();
        let srv = self.srv.metadata.name_or_error();
        Server::render_pretty(
            quoted_text(dep.as_str()),
            quoted_text(srv.as_str()),
            quoted_text(self.server_addr.as_str()),
        )
    }

    /// Renders a server with one field to a line, given the quoted names of its objects and its
    /// quoted address.
    pub fn render_pretty(dep: String, srv: String, server_addr: String) -> (text: String)
        ensures
            text@ == "KubeServer {\n    dep: "@ + dep@ + ",\n    srv: "@ + srv@
                + ",\n    server_addr: "@ + server_addr@ + ",\n}"@,
    {
        let mut text = "KubeServer {\n    dep: ".to_string();
        text.append(dep.as_str());
        text.append(",\n    srv: ");
        text.append(srv.as_str());
        text.append(",\n    server_addr: ");
        text.append(server_addr.as_str());
        text.append(",\n}");
        text
    }

    /// The change that sets the number of replicas.
    pub fn set_scale(&self, num: i32) -> (request: ScaleRequest)
        ensures
            request.scales(*self, num),
    {
        ScaleRequest {
            name: self.srv.metadata.name_or_error(),
            replicas: num,
            server_addr: self.server_addr.clone(),
        }
    }

    /// The change that starts the server.
    pub fn start(&self) -> (request: ScaleRequest)
        ensures
            request.scales(*self, 1),
    {
        self.set_scale(1)
    }

    /// The change that stops the server.
    pub fn stop(&self) -> (request: ScaleRequest)
        ensures
            request.scales(*self, 0),
    {
        self.set_scale(0)
    }

    /// Whether it can be made out what the server is up to: if it takes an attempt to connect, the
    /// service says where.
    pub open spec fn answerable(self) -> bool {
        answerable(self.dep, self.srv)
    }

    /// The address to connect to in order to know what the server is up to, if that takes an
    /// attempt to connect and there is such an address.
    pub open spec fn connection_target(self) -> Option<Seq<char>> {
        if self.dep.status matches Some(status) && needs_connection(status) {
            match node_port(self.srv) {
                Some(n) => Some("localhost:"@ + decimal(n as int)),
                None => None,
            }
        } else {
            None
        }
    }

    /// The address to connect to in order to know what the server is up to, if that takes an
    /// attempt to connect and there is such an address.
    pub fn connection(&self) -> (address: Option<String>)
        requires
            self.answerable(),
        ensures
            text_of(address) == self.connection_target(),
    {
        if deployment_needs_connection(&self.dep) {
            match self.query_server_connectable() {
                Ok(address) => Some(address),
                Err(_) => None,
            }
        } else {
            None
        }
    }

    /// What the server is up to, where `connectable` says whether an attempt to connect to it, if
    /// one was made, came through.
    pub fn query_status(&self, connectable: bool) -> (status: Result<
        ServerDeploymentStatus,
        OpaqueError,
    >)
        ensures
            match self.dep.status {
                Some(s) => status == Ok::<ServerDeploymentStatus, OpaqueError>(
                    deployment_status(s, connectable),
                ),
                None => status matches Err(e) && e.context@
                    == "failed to get status of deployment for checking replicas"@,
            },
    {
        let status = match &self.dep.status {
            Some(status) => status,
            None => {
                return Err(
                    OpaqueError::create(
                        "failed to get status of deployment for checking replicas",
                    ),
                )
            },
        };
        let total_replicas: i32 = status.replicas.unwrap_or(-1);
        let ready_replicas: i32 = status.ready_replicas.unwrap_or(-1);
        if total_replicas > 0 {
            if ready_replicas > 0 {
                return if connectable {
                    Ok(ServerDeploymentStatus::Connectable)
                } else {
                    Ok(ServerDeploymentStatus::PodOk)
                };
            }
            Ok(ServerDeploymentStatus::Starting)
        } else {
            Ok(ServerDeploymentStatus::Offline)
        }
    }

    /// Whether the service says which port players connect to.
    pub fn has_port_list(&self) -> (listed: bool)
        ensures
            listed == has_port_list(self.srv),
    {
        lists_ports(&self.srv)
    }

    /// The port of the nodes of the cluster that leads to the server.
    pub fn get_port(&self) -> (port: Option<String>)
        requires
            has_port_list(self.srv),
        ensures
            match node_port(self.srv) {
                Some(n) => port matches Some(p) && p@ == decimal(n as int),
                None => port is None,
            },
    {
        let ports = self.srv.spec.as_ref().unwrap().ports.as_ref().unwrap();
        assert(ports@.skip(0) =~= ports@);
        for i in 0..ports.len()
            invariant
                ports_of(self.srv) == Some(ports@),
                ports_named(ports@.skip(i as int)),
                router_port(ports@.skip(i as int)) == router_port(ports@),
        {
            let ghost rest = ports@.skip(i as int);
            assert(rest.drop_first() =~= ports@.skip(i + 1));
            assert(rest[0] == ports@[i as int]);
            if same_text(ports[i].name.as_ref().unwrap().as_str(), ROUTER_PORT) {
                return match ports[i].node_port {
                    Some(n) => Some(decimal_text(n as i64)),
                    None => None,
                };
            }
        }
        None
    }

    /// The address at which the ingress reaches the server.
    pub fn get_internal_address(&self) -> (address: Option<String>)
        requires
            has_port_list(self.srv),
        ensures
            match node_port(self.srv) {
                Some(n) => address matches Some(a) && a@ == "localhost:"@ + decimal(n as int),
                None => address is None,
            },
    {
        let port = self.get_port()?;
        Some("localhost:".to_string().concat(port.as_str()))
    }

    /// The address to connect to in order to see whether the server takes connections.
    pub fn query_server_connectable(&self) -> (address: Result<String, OpaqueError>)
        requires
            has_port_list(self.srv),
        ensures
            match node_port(self.srv) {
                Some(n) => address matches Ok(a) && a@ == "localhost:"@ + decimal(n as int),
                None => address matches Err(e) && e.context@
                    == "failed to get internal address from server"@,
            },
    {
        match self.get_internal_address() {
            Some(address) => Ok(address),
            None => Err(OpaqueError::create("failed to get internal address from server")),
        }
    }

    /// The address that players know the server by.
    pub fn get_addr(&self) -> (addr: Option<String>)
        ensures
            addr matches Some(a) && a@ == self.server_addr@,
    {
        Some(self.server_addr.clone())
    }

    /// The message of the day.
    pub fn get_motd(&self) -> (message: Option<String>)
        ensures
            text_of(message) == motd(self.dep),
    {
        let containers = match &self.dep.spec {
            Some(spec) => match &spec.template {
                Some(pod) => &pod.containers,
                None => return None,
            },
            None => return None,
        };
        if containers.len() == 0 {
            return None;
        }
        let env = match &containers[0].env {
            Some(env) => env,
            None => return None,
        };
        assert(env@.skip(0) =~= env@);
        for i in 0..env.len()
            invariant
                motd_of_env(env@) == motd(self.dep),
                motd_of_env(env@.skip(i as int)) == motd_of_env(env@),
        {
            let ghost rest = env@.skip(i as int);
            assert(rest.drop_first() =~= env@.skip(i + 1));
            assert(rest[0] == env@[i as int]);
            if same_text(env[i].name.as_str(), MOTD_VARIABLE) {
                return match &env[i].value {
                    Some(value) => Some(value.clone()),
                    None => None,
                };
            }
        }
        None
    }

    /// The packets that ask the server to describe itself, if it is connectable.
    pub fn query_description(&self, status: ServerDeploymentStatus) -> (request: Result<
        DescriptionRequest,
        OpaqueError,
    >)
        ensures
            match request {
                Ok(r) => {
                    &&& status is Connectable
                    &&& var_string_fits(self.server_addr@)
                    &&& r.asks(self.server_addr@)
                },
                Err(e) => {
                    ||| status !is Connectable && e.context@ == "server is not running; status="@
                        + status.name()
                    ||| status is Connectable && !var_string_fits(self.server_addr@) && e.context@
                        == "failed to create handshake packet from scratch... WTF?"@
                },
            },
    {
        match status {
            ServerDeploymentStatus::Connectable => {},
            _ => {
                let mut text = "server is not running; status=".to_string();
                text.append(status.to_text().as_str());
                return Err(OpaqueError::create(text.as_str()));
            },
        }
        let protocol_version = VarInt::from(746);
        let next_state = VarInt::from(1);
        let handshake = match Handshake::create(
            protocol_version.unwrap(),
            VarString::from(self.server_addr.clone()),
            UShort::from(1234),
            next_state.unwrap(),
        ) {
            Some(handshake) => handshake,
            None => {
                return Err(
                    OpaqueError::create(
                        "failed to create handshake packet from scratch... WTF?",
                    ),
                )
            },
        };
        let status_request = Packet::from_bytes(0, Vec::new()).unwrap();
        Ok(DescriptionRequest { handshake, status_request })
    }
}

/// The first port that is named `mc-router` decides: its node port is that of the service, whatever
/// ports stand around it.
pub proof fn law_first_router_port_decides(service: Service, ports: Seq<ServicePort>, at: int)
    requires
        service.spec matches Some(spec) && spec.ports matches Some(list) && list@ == ports,
        0 <= at < ports.len(),
        ports[at].name matches Some(name) && name@ == "mc-router"@,
        forall|i: int|
            0 <= i < at ==> !((#[trigger] ports[i]).name matches Some(name) && name@
                == "mc-router"@),
    ensures
        node_port(service) == ports[at].node_port,
{
    lemma_router_port(ports, at);
}

proof fn lemma_router_port(ports: Seq<ServicePort>, at: int)
    requires
        0 <= at < ports.len(),
        is_router(ports[at]),
        forall|i: int| 0 <= i < at ==> !is_router(#[trigger] ports[i]),
    ensures
        router_port(ports) == Some(ports[at]),
    decreases ports.len(),
{
    if at > 0 {
        let rest = ports.drop_first();
        assert(!is_router(ports[0]));
        assert forall|i: int| 0 <= i < at - 1 implies !is_router(#[trigger] rest[i]) by {
            assert(rest[i] == ports[i + 1]);
        }
        lemma_router_port(rest, at - 1);
    }
}

/// A service has a node port only by a port that is named `mc-router`.
pub proof fn law_node_port_is_a_routers(service: Service, n: i32)
    requires
        node_port(service) == Some(n),
    ensures
        service.spec matches Some(spec) && spec.ports matches Some(list) && exists|i: int|
            0 <= i < list@.len() && ((#[trigger] list@[i]).name matches Some(name) && name@
                == "mc-router"@) && list@[i].node_port == Some(n),
{
    lemma_router_port_is_listed(ports_of(service)->Some_0);
}

proof fn lemma_router_port_is_listed(ports: Seq<ServicePort>)
    ensures
        router_port(ports) matches Some(port) ==> exists|i: int|
            0 <= i < ports.len() && #[trigger] ports[i] == port && is_router(port),
    decreases ports.len(),
{
    if ports.len() > 0 {
        if is_router(ports[0]) {
            assert(ports[0] == router_port(ports)->Some_0);
        } else {
            let rest = ports.drop_first();
            lemma_router_port_is_listed(rest);
            if let Some(port) = router_port(rest) {
                let i = choose|i: int|
                    0 <= i < rest.len() && #[trigger] rest[i] == port && is_router(port);
                assert(ports[i + 1] == port);
            }
        }
    }
}

/// What is given as the port of a server, and what is connected to, is the node port of its
/// service.
pub proof fn law_server_is_reached_by_its_node_port(
    server: Server,
    port: Option<String>,
    internal: Option<String>,
    tried: Result<String, OpaqueError>,
)
    requires
        call_ensures(Server::get_port, (&server,), port),
        call_ensures(Server::get_internal_address, (&server,), internal),
        call_ensures(Server::query_server_connectable, (&server,), tried),
    ensures
        node_port(server.srv) matches Some(n) ==> {
            &&& port matches Some(p)
            &&& p@ == decimal(n as int)
            &&& internal matches Some(a)
            &&& a@ == "localhost:"@ + decimal(n as int)
            &&& tried matches Ok(t)
            &&& t@ == "localhost:"@ + decimal(n as int)
        },
        node_port(server.srv) is None ==> port is None && internal is None && tried is Err,
{
}

/// A service says which port players connect to if each of its ports has a name up to the first
/// that is named `mc-router`, or up to the last.
pub proof fn law_named_ports_are_listed(service: Service, ports: Seq<ServicePort>, upto: int)
    requires
        service.spec matches Some(spec) && spec.ports matches Some(list) && list@ == ports,
        0 <= upto <= ports.len(),
        forall|i: int| 0 <= i < upto ==> (#[trigger] ports[i]).name is Some,
        upto < ports.len() ==> (ports[upto].name matches Some(name) && name@ == "mc-router"@),
    ensures
        has_port_list(service),
{
    lemma_ports_named(ports, upto);
}

proof fn lemma_ports_named(ports: Seq<ServicePort>, upto: int)
    requires
        0 <= upto <= ports.len(),
        forall|i: int| 0 <= i < upto ==> (#[trigger] ports[i]).name is Some,
        upto < ports.len() ==> is_router(ports[upto]),
    ensures
        ports_named(ports),
    decreases ports.len(),
{
    if upto > 0 {
        let rest = ports.drop_first();
        assert(ports[0].name is Some);
        assert forall|i: int| 0 <= i < upto - 1 implies (#[trigger] rest[i]).name is Some by {
            assert(rest[i] == ports[i + 1]);
        }
        lemma_ports_named(rest, upto - 1);
    }
}

/// What a deployment is up to goes by its replicas, by how many of them are ready, and by whether
/// it takes a connection: it is offline where it has none, it starts where none is ready, and where
/// one is ready it is connectable or not.
pub proof fn law_status_by_replicas(status: DeploymentStatus, connectable: bool)
    ensures
        !(status.replicas matches Some(n) && n > 0) ==> deployment_status(status, connectable)
            == ServerDeploymentStatus::Offline,
        (status.replicas matches Some(n) && n > 0) && !(status.ready_replicas matches Some(r) && r
            > 0) ==> deployment_status(status, connectable) == ServerDeploymentStatus::Starting,
        (status.replicas matches Some(n) && n > 0) && (status.ready_replicas matches Some(r) && r
            > 0) ==> deployment_status(status, true) == ServerDeploymentStatus::Connectable
            && deployment_status(status, false) == ServerDeploymentStatus::PodOk,
        needs_connection(status) <==> (status.replicas matches Some(n) && n > 0) && (
        status.ready_replicas matches Some(r) && r > 0),
{
}

/// Nothing else in the status of a deployment matters.
pub proof fn law_status_by_nothing_else(
    a: DeploymentStatus,
    b: DeploymentStatus,
    connectable: bool,
)
    requires
        a.replicas == b.replicas,
        a.ready_replicas == b.ready_replicas,
    ensures
        deployment_status(a, connectable) == deployment_status(b, connectable),
        needs_connection(a) == needs_connection(b),
{
}

/// What a server is said to be up to, in terms of the replicas of its deployment.
pub proof fn law_server_status_by_replicas(
    server: Server,
    connectable: bool,
    status: Result<ServerDeploymentStatus, OpaqueError>,
)
    requires
        call_ensures(Server::query_status, (&server, connectable), status),
    ensures
        server.dep.status is None ==> status is Err,
        server.dep.status matches Some(s) ==> (status matches Ok(told) && {
            let running = s.replicas matches Some(n) && n > 0;
            let ready = s.ready_replicas matches Some(r) && r > 0;
            &&& told is Offline <==> !running
            &&& told is Starting <==> running && !ready
            &&& told is Connectable <==> running && ready && connectable
            &&& told is PodOk <==> running && ready && !connectable
        }),
{
}

/// A running server of which a replica is ready is tried at its node port, and no other is tried.
pub proof fn law_only_ready_servers_are_tried(server: Server, address: Option<String>)
    requires
        call_ensures(Server::connection, (&server,), address),
    ensures
        address is Some <==> {
            &&& server.dep.status matches Some(s)
            &&& s.replicas matches Some(n)
            &&& n > 0
            &&& s.ready_replicas matches Some(r)
            &&& r > 0
            &&& node_port(server.srv) is Some
        },
        address matches Some(a) ==> (node_port(server.srv) matches Some(n) && a@ == "localhost:"@
            + decimal(n as int)),
{
}

/// It can be made out what a server is up to unless a replica is ready and its service does not say
/// where.
pub proof fn law_answerable(dep: Deployment, srv: Service)
    ensures
        answerable(dep, srv) <==> (has_port_list(srv) || !{
            &&& dep.status matches Some(s)
            &&& s.replicas matches Some(n)
            &&& n > 0
            &&& s.ready_replicas matches Some(r)
            &&& r > 0
        }),
{
}

/// Starting a server scales the deployment that has the name of its service to one replica, and
/// stopping it scales that to none, whatever the deployment holds.
pub proof fn law_start_and_stop(server: Server, start: ScaleRequest, stop: ScaleRequest)
    requires
        call_ensures(Server::start, (&server,), start),
        call_ensures(Server::stop, (&server,), stop),
    ensures
        start.replicas == 1,
        stop.replicas == 0,
        start.name@ == stop.name@,
        server.srv.metadata.name matches Some(name) ==> start.name@ == name@,
        server.srv.metadata.name is None ==> start.name@ == "#error#"@,
        start.server_addr@ == server.server_addr@,
        stop.server_addr@ == server.server_addr@,
{
}

/// A change scales as many replicas as it says, of the deployment that has the name of the service.
pub proof fn law_scale_request(request: ScaleRequest, server: Server, num: i32)
    requires
        request.scales(server, num),
    ensures
        request.replicas == num,
        server.srv.metadata.name matches Some(name) ==> request.name@ == name@,
        server.srv.metadata.name is None ==> request.name@ == "#error#"@,
        request.server_addr@ == server.server_addr@,
{
}

/// The message of the day is the value of the first variable named `MOTD` of the first container,
/// whatever other variables and containers there are.
pub proof fn law_first_motd_decides(
    server: Server,
    message: Option<String>,
    env: Seq<EnvVar>,
    at: int,
)
    requires
        call_ensures(Server::get_motd, (&server,), message),
        server.dep.spec matches Some(spec) && spec.template matches Some(pod)
            && pod.containers@.len() > 0 && (pod.containers@[0].env matches Some(list) && list@
            == env),
        0 <= at < env.len(),
        env[at].name@ == "MOTD"@,
        forall|i: int| 0 <= i < at ==> (#[trigger] env[i]).name@ != "MOTD"@,
    ensures
        match env[at].value {
            Some(value) => message matches Some(m) && m@ == value@,
            None => message is None,
        },
{
    lemma_motd_of_env(env, at);
}

proof fn lemma_motd_of_env(env: Seq<EnvVar>, at: int)
    requires
        0 <= at < env.len(),
        env[at].name@ == MOTD_VARIABLE@,
        forall|i: int| 0 <= i < at ==> (#[trigger] env[i]).name@ != MOTD_VARIABLE@,
    ensures
        motd_of_env(env) == text_of(env[at].value),
    decreases env.len(),
{
    if at > 0 {
        let rest = env.drop_first();
        assert(env[0].name@ != MOTD_VARIABLE@);
        assert forall|i: int| 0 <= i < at - 1 implies (#[trigger] rest[i]).name@
            != MOTD_VARIABLE@ by {
            assert(rest[i] == env[i + 1]);
        }
        lemma_motd_of_env(rest, at - 1);
    }
}

/// A message of the day is always the value of a variable named `MOTD` of the first container.
pub proof fn law_motd_is_not_made_up(server: Server, message: String)
    requires
        call_ensures(Server::get_motd, (&server,), Some(message)),
    ensures
        server.dep.spec matches Some(spec) && spec.template matches Some(pod)
            && pod.containers@.len() > 0 && (pod.containers@[0].env matches Some(env) && exists|
            i: int,
        |
            0 <= i < env@.len() && (#[trigger] env@[i]).name@ == "MOTD"@ && (
            env@[i].value matches Some(value) && value@ == message@)),
{
    let env = server.dep.spec->Some_0.template->Some_0.containers@[0].env->Some_0@;
    lemma_motd_is_listed(env);
}

proof fn lemma_motd_is_listed(env: Seq<EnvVar>)
    ensures
        motd_of_env(env) matches Some(text) ==> exists|i: int|
            0 <= i < env.len() && (#[trigger] env[i]).name@ == MOTD_VARIABLE@ && (
            env[i].value matches Some(value) && value@ == text),
    decreases env.len(),
{
    if env.len() > 0 {
        if env[0].name@ == MOTD_VARIABLE@ {
            assert(text_of(env[0].value) == motd_of_env(env));
        } else {
            let rest = env.drop_first();
            lemma_motd_is_listed(rest);
            if let Some(text) = motd_of_env(rest) {
                let i = choose|i: int|
                    0 <= i < rest.len() && (#[trigger] rest[i]).name@ == MOTD_VARIABLE@ && (
                    rest[i].value matches Some(value) && value@ == text);
                assert(env[i + 1] == rest[i]);
            }
        }
    }
}

/// A server is asked to describe itself by a handshake for the status, in its own name, and by an
/// empty status request.
pub proof fn law_description_request(request: DescriptionRequest, addr: Seq<char>)
    requires
        request.asks(addr),
    ensures
        request.handshake.protocol_version.int_value() == 746,
        request.handshake.server_address.value@ == addr,
        request.handshake.server_port.value == 1234,
        request.handshake.next_state.int_value() == 1,
        request.handshake.all@ == frame(
            var_int_bytes(0),
            handshake_data(request.handshake.fields()),
        ),
        request.status_request.id.int_value() == 0,
        request.status_request.data@.len() == 0,
        request.status_request.all@ == seq![1u8, 0u8],
{
    reveal_with_fuel(crate::types::var_bytes, 2);
    assert(var_int_bytes(0) =~= seq![0u8]);
    assert(var_int_bytes(0) + Seq::<u8>::empty() =~= seq![0u8]);
    assert(var_int_bytes(1) =~= seq![1u8]);
    assert(frame(var_int_bytes(0), seq![]) =~= seq![1u8, 0u8]);
}

/// Just a connectable server is asked, by its own address; of another it is said what it is up to.
pub proof fn law_only_connectable_servers_are_asked(
    server: Server,
    status: ServerDeploymentStatus,
    request: Result<DescriptionRequest, OpaqueError>,
)
    requires
        call_ensures(Server::query_description, (&server, status), request),
    ensures
        status is Connectable && var_string_fits(server.server_addr@) ==> (request matches Ok(r)
            && r.asks(server.server_addr@)),
        status is Connectable && !var_string_fits(server.server_addr@) ==> request is Err,
        status is Starting ==> (request matches Err(e) && e.context@
            == "server is not running; status="@ + "Starting"@),
        status is PodOk ==> (request matches Err(e) && e.context@
            == "server is not running; status="@ + "PodOk"@),
        status is Offline ==> (request matches Err(e) && e.context@
            == "server is not running; status="@ + "Offline"@),
{
}

/// The number of players that was made out is passed on as it is, and nothing else is.
pub proof fn law_players_are_passed_on(
    players: Option<i32>,
    online: Result<i32, OpaqueError>,
)
    requires
        call_ensures(description_reply, (players,), online),
    ensures
        players matches Some(n) ==> online == Ok::<i32, OpaqueError>(n),
        players is None <==> online is Err,
{
}

/// Both renderings of a server quote the names of its objects and its address, in this order.
pub proof fn law_renderings_of_a_server(server: Server, short: String, long: String)
    requires
        call_ensures(Server::debug_text, (&server,), short),
        call_ensures(Server::pretty_text, (&server,), long),
        server.dep.metadata.name is Some,
        server.srv.metadata.name is Some,
    ensures
        ({
            let dep = debug_quoted(server.dep.metadata.name->Some_0@);
            let srv = debug_quoted(server.srv.metadata.name->Some_0@);
            let addr = debug_quoted(server.server_addr@);
            &&& short@ == "KubeServer { dep: "@ + dep + ", srv: "@ + srv + ", server_addr: "@ + addr
                + " }"@
            &&& long@ == "KubeServer {\n    dep: "@ + dep + ",\n    srv: "@ + srv
                + ",\n    server_addr: "@ + addr + ",\n}"@
        }),
{
}

/// The questions about a deployment, a service and a server are answered as the laws say.
pub proof fn law_questions_are_answered(
    deployment: Deployment,
    needed: bool,
    service: Service,
    listed: bool,
    server: Server,
    own: bool,
    num: i32,
    request: ScaleRequest,
    addr: Option<String>,
)
    requires
        call_ensures(deployment_needs_connection, (&deployment,), needed),
        call_ensures(lists_ports, (&service,), listed),
        call_ensures(Server::has_port_list, (&server,), own),
        call_ensures(Server::set_scale, (&server, num), request),
        call_ensures(Server::get_addr, (&server,), addr),
    ensures
        needed <==> {
            &&& deployment.status matches Some(s)
            &&& s.replicas matches Some(n)
            &&& n > 0
            &&& s.ready_replicas matches Some(r)
            &&& r > 0
        },
        listed == has_port_list(service),
        own == has_port_list(server.srv),
        request.scales(server, num),
        addr matches Some(a) && a@ == server.server_addr@,
{
}

} // verus!
