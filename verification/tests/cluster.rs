use mc_ingress::deploy_cache::Cache;
use mc_ingress::kube_cache::{filter_label_value, KubeCache, ADDR_LABEL, PORT_LABEL};
use mc_ingress::kubernetes::{
    Container, Deployment, DeploymentSpec, DeploymentStatus, EnvVar, Label, Metadata, PodSpec,
    Service, ServicePort, ServiceSpec,
};
use mc_ingress::mc_api::{
    watch_target, McApi, QueryAction, QueryEvent, QueryStep, ServerQuery,
};
use mc_ingress::mc_server::ServerDeploymentStatus;
use mc_ingress::packets::serverbound::handshake::Handshake;
use mc_ingress::packets::{Packet, SendPacket};
use mc_ingress::server::{description_reply, Server};

fn metadata(name: Option<&str>, labels: &[(&str, &str)]) -> Metadata {
    Metadata {
        name: name.map(String::from),
        labels: labels
            .iter()
            .map(|(key, value)| Label { key: key.to_string(), value: value.to_string() })
            .collect(),
    }
}

fn deployment(name: Option<&str>, labels: &[(&str, &str)]) -> Deployment {
    Deployment { metadata: metadata(name, labels), spec: None, status: None }
}

fn service(name: Option<&str>, labels: &[(&str, &str)]) -> Service {
    Service { metadata: metadata(name, labels), spec: None }
}

fn port(name: Option<&str>, node_port: Option<i32>) -> ServicePort {
    ServicePort { name: name.map(String::from), node_port }
}

fn server(status: Option<DeploymentStatus>, ports: Option<Vec<ServicePort>>) -> Server {
    let mut dep = deployment(Some("lobby"), &[]);
    dep.status = status;
    let mut srv = service(Some("lobby-srv"), &[]);
    srv.spec = Some(ServiceSpec { ports });
    Server { dep, srv, server_addr: "play.example.com".to_string() }
}

fn replicas(total: Option<i32>, ready: Option<i32>) -> Option<DeploymentStatus> {
    Some(DeploymentStatus { replicas: total, available_replicas: None, ready_replicas: ready })
}

#[test]
fn labels_that_serve() {
    let by_addr = deployment(None, &[("app", "x"), (ADDR_LABEL, "a.example")]);
    assert!(filter_label_value(&by_addr, "a.example", "25565"));
    assert!(!filter_label_value(&by_addr, "b.example", "25565"));
    let by_port = service(None, &[(PORT_LABEL, "25565")]);
    assert!(filter_label_value(&by_port, "b.example", "25565"));
    assert!(!filter_label_value(&by_port, "25565", "1"));
    let other = deployment(None, &[("app", "a.example")]);
    assert!(!filter_label_value(&other, "a.example", "a.example"));
    assert_eq!(ADDR_LABEL, "tami.moe/minecraft");
    assert_eq!(PORT_LABEL, "tami.moe/minecraft-port");
}

#[test]
fn first_server_is_found() {
    let mut cache = KubeCache::create(Some("client")).unwrap();
    assert_eq!(cache.query_dep_addr("a.example", "1"), None);
    assert_eq!(cache.query_srv_addr("a.example", "1"), None);
    cache.deployments = vec![
        deployment(Some("zero"), &[(ADDR_LABEL, "z.example")]),
        deployment(Some("one"), &[(ADDR_LABEL, "a.example")]),
        deployment(Some("two"), &[(ADDR_LABEL, "a.example")]),
    ];
    cache.services = vec![
        service(None, &[(ADDR_LABEL, "a.example")]),
        service(Some("three"), &[(ADDR_LABEL, "a.example"), (PORT_LABEL, "7")]),
    ];
    assert_eq!(cache.query_dep_addr("a.example", "1"), Some("one".to_string()));
    // the first that serves has no name
    assert_eq!(cache.query_srv_addr("a.example", "1"), None);
    assert_eq!(cache.query_srv_addr("b.example", "7"), Some("three".to_string()));
}

#[test]
fn nothing_without_a_client() {
    assert!(KubeCache::<u8>::create(None).is_none());
    assert!(Cache::<u8>::create(None).is_none());
    assert!(McApi::<u8, u8>::create(None).is_none());
    assert_eq!(KubeCache::create(Some(7)).unwrap().client, 7);
    assert_eq!(Cache::create(Some(7)).unwrap().client, 7);
    assert_eq!(*McApi::<i32, u8>::create(Some(7)).unwrap().client(), 7);
}

#[test]
fn no_server_is_made_up() {
    let mut cache = KubeCache::create(Some("client")).unwrap();
    cache.deployments = vec![deployment(Some("one"), &[(ADDR_LABEL, "a.example")])];
    assert_eq!(cache.query_dep_addr("b.example", "1"), None);
}

#[test]
fn deployments_by_any_label() {
    let mut cache = Cache::create(Some("client")).unwrap();
    assert!(cache.get_deploys().is_empty());
    cache.deployments = vec![
        deployment(Some("one"), &[("app", "x")]),
        deployment(Some("two"), &[("app", "y"), ("any", "a.example")]),
    ];
    assert_eq!(cache.get_deploys().len(), 2);
    assert_eq!(cache.query_addr("a.example".to_string()), Some("two".to_string()));
    assert_eq!(cache.query_addr("b.example".to_string()), None);
}

#[test]
fn status_of_a_server() {
    let status = |total, ready, connectable| {
        server(replicas(total, ready), None).query_status(connectable).unwrap()
    };
    assert_eq!(status(Some(1), Some(1), true), ServerDeploymentStatus::Connectable);
    assert_eq!(status(Some(1), Some(1), false), ServerDeploymentStatus::PodOk);
    assert_eq!(status(Some(1), Some(0), true), ServerDeploymentStatus::Starting);
    assert_eq!(status(Some(1), None, true), ServerDeploymentStatus::Starting);
    assert_eq!(status(Some(0), Some(1), true), ServerDeploymentStatus::Offline);
    assert_eq!(status(None, Some(1), true), ServerDeploymentStatus::Offline);
    assert_eq!(
        server(None, None).query_status(true).unwrap_err().context,
        "failed to get status of deployment for checking replicas"
    );
}

#[test]
fn names_of_statuses() {
    assert_eq!(ServerDeploymentStatus::Connectable.to_text(), "Connectable");
    assert_eq!(ServerDeploymentStatus::Starting.to_text(), "Starting");
    assert_eq!(ServerDeploymentStatus::PodOk.to_text(), "PodOk");
    assert_eq!(ServerDeploymentStatus::Offline.to_text(), "Offline");
}

#[test]
fn port_of_a_server() {
    let found = server(
        None,
        Some(vec![
            port(Some("rcon"), Some(1)),
            port(Some("mc-router"), Some(30123)),
            port(None, Some(2)),
        ]),
    );
    assert!(found.has_port_list());
    assert_eq!(found.get_port(), Some("30123".to_string()));
    assert_eq!(found.get_internal_address(), Some("localhost:30123".to_string()));
    assert_eq!(found.query_server_connectable().unwrap(), "localhost:30123");
    assert_eq!(found.get_addr(), Some("play.example.com".to_string()));

    let none = server(None, Some(vec![port(Some("rcon"), Some(1))]));
    assert!(none.has_port_list());
    assert_eq!(none.get_port(), None);
    assert_eq!(none.get_internal_address(), None);
    assert_eq!(
        none.query_server_connectable().unwrap_err().context,
        "failed to get internal address from server"
    );
    assert_eq!(server(None, Some(vec![port(Some("mc-router"), None)])).get_port(), None);

    assert!(!server(None, None).has_port_list());
    assert!(!server(None, Some(vec![port(None, Some(1))])).has_port_list());
}

#[test]
fn connection_of_a_server() {
    let ports = || Some(vec![port(Some("mc-router"), Some(30123))]);
    assert_eq!(
        server(replicas(Some(1), Some(1)), ports()).connection(),
        Some("localhost:30123".to_string())
    );
    assert_eq!(server(replicas(Some(1), None), ports()).connection(), None);
    assert_eq!(server(replicas(Some(1), Some(1)), Some(vec![])).connection(), None);
    assert_eq!(server(None, None).connection(), None);
}

#[test]
fn message_of_the_day() {
    let variable = |name: &str, value: Option<&str>| EnvVar {
        name: name.to_string(),
        value: value.map(String::from),
    };
    let with = |containers: Vec<Container>| {
        let mut found = server(None, None);
        found.dep.spec = Some(DeploymentSpec { template: Some(PodSpec { containers }) });
        found.get_motd()
    };
    let env = |variables| Container { env: Some(variables) };
    assert_eq!(
        with(vec![env(vec![
            variable("TYPE", Some("PAPER")),
            variable("MOTD", Some("hello")),
            variable("MOTD", Some("again")),
        ])]),
        Some("hello".to_string())
    );
    assert_eq!(with(vec![env(vec![variable("MOTD", None)])]), None);
    assert_eq!(with(vec![env(vec![variable("TYPE", None)])]), None);
    assert_eq!(with(vec![]), None);
    assert_eq!(
        with(vec![Container { env: None }, env(vec![variable("MOTD", Some("hello"))])]),
        None
    );
    assert_eq!(server(None, None).get_motd(), None);
    let mut bare = server(None, None);
    bare.dep.spec = Some(DeploymentSpec { template: None });
    assert_eq!(bare.get_motd(), None);
}

#[test]
fn scale_of_a_server() {
    let mut found = server(None, None);
    let start = found.start();
    assert_eq!((start.name.as_str(), start.replicas), ("lobby-srv", 1));
    assert_eq!(start.server_addr, "play.example.com");
    let stop = found.stop();
    assert_eq!((stop.name.as_str(), stop.replicas), ("lobby-srv", 0));
    assert_eq!(found.set_scale(5).replicas, 5);
    found.srv.metadata.name = None;
    assert_eq!(found.start().name, "#error#");
}

#[test]
fn debug_text_of_a_server() {
    let mut found = server(None, None);
    assert_eq!(
        found.debug_text(),
        "KubeServer { dep: \"lobby\", srv: \"lobby-srv\", server_addr: \"play.example.com\" }"
    );
    found.dep.metadata.name = None;
    found.server_addr = "a\"b\n".to_string();
    assert_eq!(
        found.debug_text(),
        "KubeServer { dep: \"#error#\", srv: \"lobby-srv\", server_addr: \"a\\\"b\\n\" }"
    );
    assert_eq!(
        Server::render("1".to_string(), "2".to_string(), "3".to_string()),
        "KubeServer { dep: 1, srv: 2, server_addr: 3 }"
    );
}

#[test]
fn pretty_text_of_a_server() {
    let mut found = server(None, None);
    found.server_addr = "a\"b\n".to_string();
    assert_eq!(
        found.pretty_text(),
        "KubeServer {\n    dep: \"lobby\",\n    srv: \"lobby-srv\",\n    \
         server_addr: \"a\\\"b\\n\",\n}"
    );
    assert_eq!(
        Server::render_pretty("1".to_string(), "2".to_string(), "3".to_string()),
        "KubeServer {\n    dep: 1,\n    srv: 2,\n    server_addr: 3,\n}"
    );
}

#[test]
fn replies_to_a_description() {
    assert_eq!(description_reply(Some(3)).unwrap(), 3);
    assert_eq!(
        description_reply(None).unwrap_err().context,
        "failed to parse status response from server"
    );
}

#[test]
fn description_of_a_server() {
    let found = server(None, None);
    let request = found.query_description(ServerDeploymentStatus::Connectable).unwrap();
    let mut stream = request.handshake.wire_bytes();
    let handshake = Handshake::parse(Packet::parse(&mut stream).unwrap()).unwrap();
    assert_eq!(handshake.protocol_version.get_int(), 746);
    assert_eq!(handshake.get_server_address(), "play.example.com");
    assert_eq!(handshake.server_port.get_value(), 1234);
    assert_eq!(handshake.get_next_state(), 1);
    assert_eq!(request.status_request.wire_bytes(), vec![1, 0]);
    for (status, text) in [
        (ServerDeploymentStatus::Starting, "server is not running; status=Starting"),
        (ServerDeploymentStatus::PodOk, "server is not running; status=PodOk"),
        (ServerDeploymentStatus::Offline, "server is not running; status=Offline"),
    ] {
        assert_eq!(found.query_description(status).unwrap_err().context, text);
    }
}

fn go_on(query: ServerQuery, event: QueryEvent) -> ServerQuery {
    assert!(query.answers(&event));
    match query.step(event) {
        QueryStep::Next(next) => next,
        _ => panic!("there is more to ask"),
    }
}

fn failure(query: ServerQuery, event: QueryEvent) -> String {
    assert!(query.answers(&event));
    match query.step(event) {
        QueryStep::Failed(error) => error.context,
        _ => panic!("there is no such server"),
    }
}

fn deployments() -> QueryEvent {
    QueryEvent::Deployments(vec![deployment(Some("dep"), &[(ADDR_LABEL, "a.example")])])
}

fn services() -> QueryEvent {
    QueryEvent::Services(vec![service(Some("srv"), &[(PORT_LABEL, "25565")])])
}

#[test]
fn lookup_finds_the_server() {
    let query = ServerQuery::query_server("a.example.\0FML3\0", "25565");
    // the dot stands before the null character, so it stays
    assert_eq!(query.addr, "a.example.");
    let query = ServerQuery::query_server("a.example\0FML3\0", "25565");
    assert_eq!(query.addr, "a.example");
    assert!(matches!(query.action(), QueryAction::ListDeployments));
    assert!(!query.answers(&services()));
    let query = go_on(query, deployments());
    assert!(matches!(query.action(), QueryAction::ListServices));
    let query = go_on(query, services());
    assert!(matches!(query.action(), QueryAction::GetDeployment(name) if name == "dep"));
    let query = go_on(query, QueryEvent::Deployment(Ok(deployment(Some("dep"), &[]))));
    assert!(matches!(query.action(), QueryAction::GetService(name) if name == "srv"));
    match query.step(QueryEvent::Service(Ok(service(Some("srv"), &[])))) {
        QueryStep::Found(server) => {
            assert_eq!(server.dep.metadata.name, Some("dep".to_string()));
            assert_eq!(server.srv.metadata.name, Some("srv".to_string()));
            assert_eq!(server.server_addr, "a.example");
        }
        _ => panic!("the server is there"),
    }
}

#[test]
fn lookup_fails() {
    let query = || ServerQuery::query_server("a.example", "25565");
    assert_eq!(
        failure(query(), QueryEvent::Deployments(vec![])),
        "Failed to find deployment name by addr"
    );
    let query = || go_on(ServerQuery::query_server("a.example", "25565"), deployments());
    assert_eq!(
        failure(query(), QueryEvent::Services(vec![])),
        "Failed to find service name by addr"
    );
    let query = || {
        go_on(
            go_on(ServerQuery::query_server("a.example", "25565"), deployments()),
            services(),
        )
    };
    assert_eq!(
        failure(query(), QueryEvent::Deployment(Err("gone".to_string()))),
        "Failed to query cache for deployment with dep_name err:gone"
    );
    let query = go_on(query(), QueryEvent::Deployment(Ok(deployment(None, &[]))));
    assert_eq!(
        failure(query, QueryEvent::Service(Err("gone".to_string()))),
        "Failed to query cache for service with dep_name err:gone"
    );
}

#[test]
fn watchers_are_kept_by_address_and_port() {
    let target = watch_target(Some("a.example".to_string()), Some("30123".to_string())).unwrap();
    assert_eq!(target.addr, "a.example");
    assert_eq!(target.port, "30123");
    assert_eq!(target.full_addr, "a.example:30123");
    let other = watch_target(Some("a.example".to_string()), Some("30124".to_string())).unwrap();
    assert_ne!(target.full_addr, other.full_addr);

    let mut api = McApi::<&str, u8>::create(Some("client")).unwrap();
    assert_eq!(api.watcher("a.example:30123"), None);
    assert!(api.start_watch(&target, None));
    api.keep_watcher(target.full_addr.clone(), 1);
    api.keep_watcher(other.full_addr.clone(), 2);
    assert_eq!(api.watcher("a.example:30123"), Some(&1));
    assert!(!api.start_watch(&target, Some(false)));
    assert!(api.start_watch(&target, Some(true)));
    api.keep_watcher(target.full_addr.clone(), 3);
    assert_eq!(api.watcher("a.example:30123"), Some(&3));
    api.remove_watcher("a.example:30123");
    assert_eq!(api.watcher("a.example:30123"), None);
    assert_eq!(api.watcher("a.example:30124"), Some(&2));
    assert_eq!(*api.client(), "client");
}

#[test]
fn server_that_cannot_be_watched() {
    assert_eq!(
        watch_target(None, Some("1".to_string())).unwrap_err().context,
        "could not get addr of server"
    );
    assert_eq!(
        watch_target(Some("a".to_string()), None).unwrap_err().context,
        "could not get port of server"
    );
}
