use mc_ingress::ingress::{
    bad_pong, bye_message, handle_login, handle_status, login_lookup, missing_status,
    process_connection, read_handshake, setting, status_lookup, LoginReply, Route, StatusReply,
    DEFAULT_BIND_ADDR, DEFAULT_FILTER,
};
use mc_ingress::kube_cache::ADDR_LABEL;
use mc_ingress::kubernetes::{
    Deployment, DeploymentStatus, Label, Metadata, Service, ServicePort, ServiceSpec,
};
use mc_ingress::mc_api::{QueryAction, QueryEvent, WatchTarget};
use mc_ingress::mc_server::{
    complete_status_request, handle_ping, proxy_status, send_disconnect, ServerDeploymentStatus,
};
use mc_ingress::opaque_error::OpaqueError;
use mc_ingress::packets::clientbound::login::Disconnect;
use mc_ingress::packets::serverbound::handshake::Handshake;
use mc_ingress::packets::{Packet, SendPacket};
use mc_ingress::session::{Action, Ending, Event, Session, SessionStep};
use mc_ingress::types::{UShort, VarInt, VarString};
use mc_ingress::watcher::{WatchAction, WatchEvent, WatchStep, Watcher};

fn handshake_to(address: &str, next_state: i32) -> Handshake {
    Handshake::create(
        VarInt::from(763).unwrap(),
        VarString::from(address.to_string()),
        UShort::from(25565),
        VarInt::from(next_state).unwrap(),
    )
    .unwrap()
}

fn packet_of(handshake: &Handshake) -> Packet {
    Packet::parse(&mut handshake.wire_bytes()).unwrap()
}

fn packet(id: i32, data: Vec<u8>) -> Packet {
    Packet::from_bytes(id, data).unwrap()
}

fn metadata(name: &str) -> Metadata {
    Metadata {
        name: Some(name.to_string()),
        labels: vec![Label { key: ADDR_LABEL.to_string(), value: "play.example.com".to_string() }],
    }
}

fn deployment(total: i32, ready: i32) -> Deployment {
    Deployment {
        metadata: metadata("dep"),
        spec: None,
        status: Some(DeploymentStatus {
            replicas: Some(total),
            available_replicas: None,
            ready_replicas: Some(ready),
        }),
    }
}

fn service(node_port: Option<i32>) -> Service {
    let ports = vec![ServicePort { name: Some("mc-router".to_string()), node_port }];
    Service { metadata: metadata("srv"), spec: Some(ServiceSpec { ports: Some(ports) }) }
}

fn advance(session: Session, event: Event) -> Session {
    assert!(session.can_take(&event));
    match session.step(event) {
        SessionStep::Next(next) => next,
        SessionStep::Finished(ending) => panic!("finished: {:?}", ending),
        SessionStep::Failed(error) => panic!("failed: {}", error.context),
    }
}

fn finish(session: Session, event: Event) -> Ending {
    assert!(session.can_take(&event));
    match session.step(event) {
        SessionStep::Finished(ending) => ending,
        SessionStep::Next(next) => panic!("goes on: {:?}", next),
        SessionStep::Failed(error) => panic!("failed: {}", error.context),
    }
}

fn fail(session: Session, event: Event) -> String {
    assert!(session.can_take(&event));
    match session.step(event) {
        SessionStep::Failed(error) => error.context,
        _ => panic!("the connection fails"),
    }
}

/// A session whose handshake was read and let through.
fn greeted(handshake: &Handshake) -> Session {
    let session = Session::open("abc123");
    assert!(matches!(session.action(), Action::ReadPacket));
    let session = advance(session, Event::Packet(packet_of(handshake)));
    match session.action() {
        Action::AskFilter(addr) => assert_eq!(addr, handshake.get_server_address()),
        action => panic!("{:?}", action),
    }
    advance(session, Event::Filtered(false))
}

/// A session whose lookup has come to the service.
fn looked_up(session: Session, deployment: Deployment) -> Session {
    assert!(matches!(session.action(), Action::AskCluster(QueryAction::ListDeployments)));
    let listed = QueryEvent::Deployments(vec![deployment.clone()]);
    let session = advance(session, Event::Cluster(listed));
    assert!(matches!(session.action(), Action::AskCluster(QueryAction::ListServices)));
    let listed = QueryEvent::Services(vec![service(Some(30123))]);
    let session = advance(session, Event::Cluster(listed));
    assert!(matches!(
        session.action(),
        Action::AskCluster(QueryAction::GetDeployment(name)) if name == "dep"
    ));
    let session = advance(session, Event::Cluster(QueryEvent::Deployment(Ok(deployment))));
    assert!(matches!(
        session.action(),
        Action::AskCluster(QueryAction::GetService(name)) if name == "srv"
    ));
    session
}

fn found(service: Service) -> Event {
    Event::Cluster(QueryEvent::Service(Ok(service)))
}

fn asks_for_status() -> Session {
    let session = greeted(&handshake_to("play.example.com", 1));
    assert!(matches!(session.action(), Action::ReadPacket));
    advance(session, Event::Packet(packet(0, vec![])))
}

fn text_of(session: &Session) -> (i32, i32, i32, String) {
    match session.action() {
        Action::SendStatus(status) => (
            status.version.protocol,
            status.players.max,
            status.players.online,
            status.description.text.clone(),
        ),
        action => panic!("{:?}", action),
    }
}

#[test]
fn settings() {
    assert_eq!(setting(None, DEFAULT_BIND_ADDR), "0.0.0.0:25565");
    assert_eq!(setting(None, DEFAULT_FILTER), "(addr == \"10.100.0.1\")");
    assert_eq!(setting(Some("1.2.3.4:5".to_string()), DEFAULT_BIND_ADDR), "1.2.3.4:5");
}

#[test]
fn handshakes_are_checked() {
    let sent = handshake_to("play.example.com", 2);
    assert_eq!(read_handshake(packet_of(&sent)).unwrap().wire_bytes(), sent.wire_bytes());
    assert_eq!(
        read_handshake(packet(-5, vec![])).unwrap_err().context,
        "Client HANDSHAKE -> bad packet; id=-5 Disconnecting..."
    );
    assert_eq!(
        read_handshake(packet(0, vec![1])).unwrap_err().context,
        "Client HANDSHAKE -> malformed packet; Disconnecting..."
    );
    assert_eq!(
        read_handshake(packet_of(&handshake_to("a", 7))).unwrap_err().context,
        "Client HANDSHAKE -> malformed packet; Disconnecting..."
    );
}

#[test]
fn connections_are_routed() {
    let route = |state, filtered| process_connection(handshake_to("a", state), filtered);
    assert!(matches!(route(1, false), Ok(Route::Status(_))));
    assert!(matches!(route(2, false), Ok(Route::Login(_))));
    assert_eq!(
        route(3, false).unwrap_err().context,
        "next state is transfer; Not yet implemented!"
    );
    assert_eq!(
        route(4, false).unwrap_err().context,
        "Client HANDSHAKE -> malformed packet; Disconnecting..."
    );
    for state in [1, 2, 3, 4] {
        assert!(matches!(route(state, true), Ok(Route::Dropped)));
    }
}

#[test]
fn lookups_of_addresses() {
    let handshake = handshake_to("play.example.com.", 2);
    let login = login_lookup(&handshake);
    assert_eq!((login.addr.as_str(), login.port.as_str()), ("play.example.com", "25565"));
    let status = status_lookup(&handshake, &packet(0, vec![])).unwrap();
    assert_eq!((status.addr.as_str(), status.port.as_str()), ("play.example.com", "25565"));
    assert_eq!(
        status_lookup(&handshake, &packet(255, vec![])).unwrap_err().context,
        "Client STATUS: 0xff Unknown Id -> Shutdown"
    );
}

#[test]
fn statuses_that_are_told() {
    let handshake = handshake_to("play.example.com.", 1);
    let bye = " - §dTami§r with §d<3§r §8(rev: abc123)§r";
    assert_eq!(bye_message("abc123"), bye);
    let missing = missing_status(&handshake, "abc123");
    assert_eq!(missing.version.protocol, 763);
    assert_eq!((missing.players.max, missing.players.online), (0, 0));
    assert_eq!(
        missing.description.text,
        format!("Could not find §kserver§r: §f§oplay.example.com.§r\nMinecraft Ingress{bye}")
    );
    assert!(matches!(
        handle_status(&handshake, ServerDeploymentStatus::Connectable, "abc123"),
        StatusReply::Proxy
    ));
    for status in [ServerDeploymentStatus::Starting, ServerDeploymentStatus::PodOk] {
        match handle_status(&handshake, status, "abc123") {
            StatusReply::Answer(answer) => {
                assert_eq!((answer.players.max, answer.players.online), (1, 1));
                assert_eq!(
                    answer.description.text,
                    format!("§aServer is starting...§r please wait\n{bye}")
                );
            }
            reply => panic!("{:?}", reply),
        }
    }
    match handle_status(&handshake, ServerDeploymentStatus::Offline, "abc123") {
        StatusReply::Answer(answer) => {
            assert_eq!(answer.version.protocol, 763);
            assert_eq!((answer.players.max, answer.players.online), (1, 0));
            assert_eq!(
                answer.description.text,
                format!(
                    "Server is currently §onot§r running. \n§aJoin to start it!§r    {bye}"
                )
            );
        }
        reply => panic!("{:?}", reply),
    }
}

#[test]
fn joins_that_are_answered() {
    assert_eq!(handle_login(ServerDeploymentStatus::Connectable), LoginReply::Proxy);
    assert_eq!(handle_login(ServerDeploymentStatus::PodOk), LoginReply::SendAway);
    assert_eq!(handle_login(ServerDeploymentStatus::Starting), LoginReply::SendAway);
    assert_eq!(handle_login(ServerDeploymentStatus::Offline), LoginReply::Start);
}

#[test]
fn pings_are_echoed() {
    let ping = packet(1, vec![1, 2, 3, 4, 5, 6, 7, 8]);
    assert_eq!(handle_ping(&ping).unwrap(), ping.all);
    assert_eq!(
        handle_ping(&packet(2, vec![])).unwrap_err().context,
        "Expected ping packet, got: 2"
    );
    let mut broken = vec![9, 9];
    broken.extend([0; 16]);
    assert_eq!(bad_pong().wire_bytes(), broken);
}

#[test]
fn packets_for_the_client() {
    let response = complete_status_request("{}".to_string()).unwrap();
    assert_eq!(response.wire_bytes(), vec![4, 0, 2, b'{', b'}']);
    let disconnect = send_disconnect("no").unwrap();
    assert_eq!(disconnect.wire_bytes(), vec![4, 0, 2, b'n', b'o']);
}

#[test]
fn packets_for_the_server() {
    let handshake = handshake_to("a", 1);
    let request = packet(0, vec![]);
    assert_eq!(proxy_status(&handshake, &request), (handshake.wire_bytes(), vec![1, 0]));
}

#[test]
fn status_of_a_running_server_is_passed_on() {
    let session = looked_up(asks_for_status(), deployment(1, 1));
    let session = advance(session, found(service(Some(30123))));
    assert!(matches!(session.action(), Action::Connect("localhost:30123")));
    match finish(session, Event::Connected(true)) {
        Ending::ForwardStatus(first, second) => {
            assert_eq!(first, handshake_to("play.example.com", 1).wire_bytes());
            assert_eq!(second, vec![1, 0]);
        }
        ending => panic!("{:?}", ending),
    }
}

#[test]
fn status_of_a_server_without_connection() {
    let expected = format!("§aServer is starting...§r please wait\n{}", bye_message("abc123"));
    let session = looked_up(asks_for_status(), deployment(1, 1));
    let session = advance(session, found(service(Some(30123))));
    let session = advance(session, Event::Connected(false));
    assert_eq!(text_of(&session), (763, 1, 1, expected.clone()));
    // no port to connect to
    let session = looked_up(asks_for_status(), deployment(1, 1));
    let session = advance(session, found(service(None)));
    assert_eq!(text_of(&session), (763, 1, 1, expected));
    let session = advance(session, Event::Sent);
    assert!(matches!(session.action(), Action::ReadPacket));
    let ping = packet(1, vec![7; 8]);
    let bytes = ping.all.clone();
    assert!(matches!(finish(session, Event::Packet(ping)), Ending::Pong(pong) if pong == bytes));
}

#[test]
fn status_of_a_stopped_server() {
    let session = looked_up(asks_for_status(), deployment(0, 0));
    let session = advance(session, found(service(Some(30123))));
    assert_eq!(text_of(&session).1, 1);
    assert_eq!(text_of(&session).2, 0);
    let session = advance(session, Event::Sent);
    assert_eq!(fail(session, Event::Packet(packet(3, vec![]))), "Expected ping packet, got: 3");
}

#[test]
fn status_of_a_server_that_is_not_there() {
    let session = advance(asks_for_status(), Event::Cluster(QueryEvent::Deployments(vec![])));
    let (protocol, max, online, text) = text_of(&session);
    assert_eq!((protocol, max, online), (763, 0, 0));
    assert!(text.starts_with("Could not find §kserver§r: §f§oplay.example.com§r\n"));
    let session = advance(session, Event::Sent);
    match finish(session, Event::Packet(packet(1, vec![7; 8]))) {
        Ending::BadPong(pong) => assert_eq!(pong, bad_pong().wire_bytes()),
        ending => panic!("{:?}", ending),
    }
}

#[test]
fn status_request_with_another_id() {
    let session = greeted(&handshake_to("play.example.com", 1));
    assert_eq!(
        fail(session, Event::Packet(packet(16, vec![]))),
        "Client STATUS: 0x10 Unknown Id -> Shutdown"
    );
}

#[test]
fn join_of_a_running_server_is_passed_on() {
    let handshake = handshake_to("play.example.com.", 2);
    let session = looked_up(greeted(&handshake), deployment(1, 1));
    let session = advance(session, found(service(Some(30123))));
    match finish(session, Event::Connected(true)) {
        Ending::ForwardLogin(bytes) => assert_eq!(bytes, handshake.wire_bytes()),
        ending => panic!("{:?}", ending),
    }
}

#[test]
fn join_of_a_starting_server_is_sent_away() {
    let session = looked_up(greeted(&handshake_to("play.example.com", 2)), deployment(1, 0));
    let session = advance(session, found(service(Some(30123))));
    assert!(matches!(session.action(), Action::ReadPacket));
    match finish(session, Event::Packet(packet(0, vec![]))) {
        Ending::Disconnect(mut bytes) => {
            let read = Disconnect::parse(Packet::parse(&mut bytes).unwrap()).unwrap();
            assert_eq!(read.get_string(), "Starting...§d<3§r");
        }
        ending => panic!("{:?}", ending),
    }
}

#[test]
fn join_starts_a_stopped_server() {
    let session = looked_up(greeted(&handshake_to("play.example.com", 2)), deployment(0, 0));
    let session = advance(session, found(service(Some(30123))));
    match session.action() {
        Action::Scale(scale) => assert_eq!((scale.name.as_str(), scale.replicas), ("srv", 1)),
        action => panic!("{:?}", action),
    }
    let session = advance(session, Event::Started);
    match session.action() {
        Action::Watch { target, seconds } => {
            assert_eq!(target.full_addr, "play.example.com:30123");
            assert_eq!(seconds, 600);
        }
        action => panic!("{:?}", action),
    }
    let session = advance(session, Event::Watched);
    match finish(session, Event::Packet(packet(0, vec![]))) {
        Ending::Disconnect(mut bytes) => {
            let read = Disconnect::parse(Packet::parse(&mut bytes).unwrap()).unwrap();
            assert_eq!(read.get_string(), "Okayy_starting_it...§d<3§r");
        }
        ending => panic!("{:?}", ending),
    }
}

#[test]
fn join_of_a_server_that_cannot_be_watched() {
    let session = looked_up(greeted(&handshake_to("play.example.com", 2)), deployment(0, 0));
    let session = advance(session, found(service(None)));
    assert_eq!(fail(session, Event::Started), "could not get port of server");
}

#[test]
fn join_of_a_server_that_is_not_there() {
    let session = greeted(&handshake_to("play.example.com", 2));
    assert_eq!(
        fail(session, Event::Cluster(QueryEvent::Deployments(vec![]))),
        "Failed to find deployment name by addr"
    );
}

#[test]
fn join_of_a_deployment_without_status() {
    let mut bare = deployment(1, 1);
    bare.status = None;
    let session = looked_up(greeted(&handshake_to("play.example.com", 2)), bare);
    assert_eq!(
        fail(session, found(service(Some(30123)))),
        "failed to get status of deployment for checking replicas"
    );
}

#[test]
fn filtered_connections_are_dropped() {
    let session = Session::open("abc123");
    let session = advance(session, Event::Packet(packet_of(&handshake_to("10.100.0.1", 2))));
    assert!(matches!(finish(session, Event::Filtered(true)), Ending::Dropped));
}

#[test]
fn odd_next_state_fails_before_the_filter() {
    let odd = packet_of(&handshake_to("10.100.0.1", 7));
    assert_eq!(
        fail(Session::open("abc123"), Event::Packet(odd)),
        "Client HANDSHAKE -> malformed packet; Disconnecting..."
    );
}

#[test]
fn events_that_do_not_fit() {
    let session = Session::open("abc123");
    for event in [Event::Filtered(true), Event::Connected(true), Event::Sent, Event::Watched] {
        assert!(!session.can_take(&event));
    }
    // a running server whose service does not say where it is
    let session = looked_up(asks_for_status(), deployment(1, 1));
    let mut nowhere = service(Some(30123));
    nowhere.spec = None;
    assert!(!session.can_take(&found(nowhere)));
}

fn watched() -> Watcher {
    let target = WatchTarget {
        addr: "play.example.com".to_string(),
        port: "30123".to_string(),
        full_addr: "play.example.com:30123".to_string(),
    };
    let watcher = Watcher::begin(target, 600);
    assert!(matches!(watcher.action(), WatchAction::Sleep(600)));
    watch(watcher, WatchEvent::Slept)
}

fn watch(watcher: Watcher, event: WatchEvent) -> Watcher {
    assert!(watcher.can_take(&event));
    match watcher.step(event) {
        WatchStep::Next(next) => next,
        _ => panic!("the watch goes on"),
    }
}

fn watched_server(deployment: Deployment) -> Watcher {
    let watcher = watched();
    assert!(matches!(watcher.action(), WatchAction::AskCluster(QueryAction::ListDeployments)));
    let listed = QueryEvent::Deployments(vec![deployment.clone()]);
    let watcher = watch(watcher, WatchEvent::Cluster(listed));
    let listed = QueryEvent::Services(vec![service(Some(30123))]);
    let watcher = watch(watcher, WatchEvent::Cluster(listed));
    watch(watcher, WatchEvent::Cluster(QueryEvent::Deployment(Ok(deployment))))
}

fn asked_server() -> Watcher {
    let found = WatchEvent::Cluster(QueryEvent::Service(Ok(service(Some(30123)))));
    let watcher = watch(watched_server(deployment(1, 1)), found);
    assert!(matches!(watcher.action(), WatchAction::Connect("localhost:30123")));
    let watcher = watch(watcher, WatchEvent::Connected(true));
    match watcher.action() {
        WatchAction::Describe(request) => {
            assert_eq!(request.status_request.wire_bytes(), vec![1, 0]);
            assert_eq!(request.handshake.get_server_address(), "play.example.com");
        }
        action => panic!("{:?}", action),
    }
    watcher
}

fn given_up(watcher: Watcher, event: WatchEvent) -> String {
    assert!(watcher.can_take(&event));
    match watcher.step(event) {
        WatchStep::GaveUp(error) => error.context,
        _ => panic!("the watch is given up"),
    }
}

#[test]
fn empty_server_is_stopped() {
    let watcher = watch(asked_server(), WatchEvent::Described(Ok(0)));
    assert!(matches!(watcher.action(), WatchAction::Forget("play.example.com:30123")));
    let watcher = watch(watcher, WatchEvent::Forgotten);
    match watcher.action() {
        WatchAction::Scale(scale) => assert_eq!((scale.name.as_str(), scale.replicas), ("srv", 0)),
        action => panic!("{:?}", action),
    }
    assert!(matches!(watcher.step(WatchEvent::Stopped), WatchStep::Ended));
}

#[test]
fn server_with_players_is_watched_on() {
    let watcher = watch(asked_server(), WatchEvent::Described(Ok(3)));
    assert!(matches!(watcher.action(), WatchAction::Sleep(600)));
    assert_eq!(watcher.plan.target.full_addr, "play.example.com:30123");
}

#[test]
fn server_that_cannot_be_asked() {
    assert_eq!(
        given_up(asked_server(), WatchEvent::Described(Err(OpaqueError::from("silent")))),
        "silent"
    );
    let found = || WatchEvent::Cluster(QueryEvent::Service(Ok(service(Some(30123)))));
    assert_eq!(
        given_up(watched_server(deployment(0, 0)), found()),
        "server is not running; status=Offline"
    );
    let mut bare = deployment(1, 1);
    bare.status = None;
    assert_eq!(
        given_up(watched_server(bare), found()),
        "failed to get status of deployment for checking replicas"
    );
}

#[test]
fn server_that_is_lost() {
    match watched().step(WatchEvent::Cluster(QueryEvent::Deployments(vec![]))) {
        WatchStep::Lost(error) => {
            assert_eq!(error.context, "Failed to find deployment name by addr")
        }
        _ => panic!("the server is lost"),
    }
}
