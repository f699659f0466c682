//! A connection of a client, from its handshake to its end, as a machine that is told what happened
//! and says what to do.
use vstd::prelude::*;

use crate::address::without_trailing_dots;
use crate::ingress::{
    bad_pong, describes, handle_login, handle_status, login_lookup, missing_status, missing_text,
    offline_text, process_connection, read_handshake, starting_text, status_lookup, LoginReply,
    Route, StatusReply, STARTED_REASON, STARTING_REASON, WATCH_SECONDS,
};
use crate::mc_api::{
    watch_key, watch_target, QueryAction, QueryEvent, QueryStage, QueryStep, ServerQuery,
    WatchTarget,
};
use crate::mc_server::{handle_ping, proxy_status, send_disconnect, ServerDeploymentStatus};
use crate::opaque_error::OpaqueError;
use crate::packets::clientbound::status::StatusStructNew;
use crate::packets::serverbound::handshake::{handshake_in, Handshake};
use crate::packets::{frame, framing, holds_packet, Packet, ProtocolState, SendPacket};
use crate::server::{
    answerable, count, deployment_needs_connection, deployment_status, has_port_list, lists_ports,
    node_port, ScaleRequest, Server,
};
use crate::text::{decimal, prefixed_hex};
use crate::types::{var_int_bytes, var_string_bytes, var_string_fits};

verus! {

/// How far a connection has come. Where a stage holds an optional packet, that is the request for
/// the status of a server; without one the client joins.
#[derive(Debug)]
pub enum Stage {
    /// The handshake is to be read.
    Handshake,
    /// The filter is to be asked about the handshake.
    Filter(Handshake),
    /// The request for the status is to be read.
    StatusRequest(Handshake),
    /// The server is looked up.
    Lookup { handshake: Handshake, request: Option<Packet>, query: ServerQuery },
    /// The server is tried.
    Connect { handshake: Handshake, request: Option<Packet>, server: Server, address: String },
    /// The client is to be told the status of a server, which was found or not.
    Answer { status: StatusStructNew, found: bool },
    /// The ping of the client is to be read.
    Ping { found: bool },
    /// The server is to be started.
    Start(Server),
    /// The server is to be watched over.
    Watch(WatchTarget),
    /// One more packet of the client is to be read, before it is sent away.
    Disconnect(String),
}

/// What is to be done.
#[derive(Debug)]
pub enum Action<'a> {
    /// A packet of the client is to be read.
    ReadPacket,
    /// The filter is to be asked about this address.
    AskFilter(String),
    /// The cluster is to be asked.
    AskCluster(QueryAction),
    /// A connection to this address is to be tried, and kept.
    Connect(&'a str),
    /// The client is to be told this status.
    SendStatus(&'a StatusStructNew),
    /// The cluster is to scale a deployment.
    Scale(ScaleRequest),
    /// A server is to be watched over, with a look every so many seconds.
    Watch { target: &'a WatchTarget, seconds: u64 },
}

/// What happened.
#[derive(Debug)]
pub enum Event {
    /// A packet came.
    Packet(Packet),
    /// The filter was asked, and the handshake matches it or not.
    Filtered(bool),
    /// The cluster answered.
    Cluster(QueryEvent),
    /// A connection was tried, and stands or not.
    Connected(bool),
    /// The client was told the status.
    Sent,
    /// The cluster was told to start the server.
    Started,
    /// The server is watched over.
    Watched,
}

/// How a connection ends well.
#[derive(Debug)]
pub enum Ending {
    /// It is dropped.
    Dropped,
    /// These bytes, the ping that came, are sent to the client.
    Pong(Vec<u8>),
    /// These bytes, which are no answer to the ping that came, are sent to the client.
    BadPong(Vec<u8>),
    /// These bytes, a disconnect, are sent to the client.
    Disconnect(Vec<u8>),
    /// These bytes are sent to the server, one packet after the other; then what either side sends
    /// goes to the other.
    ForwardStatus(Vec<u8>, Vec<u8>),
    /// These bytes are sent to the server; then what either side sends goes to the other.
    ForwardLogin(Vec<u8>),
}

/// What comes of an event.
pub enum SessionStep {
    Next(Session),
    Finished(Ending),
    Failed(OpaqueError),
}

/// A connection of a client.
#[derive(Debug)]
pub struct Session {
    pub revision: String,
    pub stage: Stage,
}

/// Whether the connection fails with the text `text`.
pub open spec fn fails_with(step: SessionStep, text: Seq<char>) -> bool {
    step matches SessionStep::Failed(e) && e.context@ == text
}

/// The stage that `step` leads to, if it leads to one and keeps the revision.
pub open spec fn next_stage(step: SessionStep, revision: Seq<char>) -> Option<Stage> {
    match step {
        SessionStep::Next(next) => if next.revision@ == revision {
            Some(next.stage)
        } else {
            None
        },
        _ => None,
    }
}

/// What comes of a server that was found, once it is known whether it can be connected to.
pub open spec fn serves(
    revision: Seq<char>,
    handshake: Handshake,
    request: Option<Packet>,
    server: Server,
    connectable: bool,
    step: SessionStep,
) -> bool {
    match server.dep.status {
        None => fails_with(
            step,
            "failed to get status of deployment for checking replicas"@,
        ),
        Some(s) => match (deployment_status(s, connectable), request) {
            (ServerDeploymentStatus::Connectable, Some(packet)) => {
                &&& step matches SessionStep::Finished(Ending::ForwardStatus(first, second))
                &&& first@ == handshake.all@
                &&& second@ == packet.all@
            },
            (ServerDeploymentStatus::Offline, Some(_)) => {
                &&& next_stage(step, revision) matches Some(Stage::Answer { status, found })
                &&& found
                &&& describes(
                    status,
                    handshake.protocol_version.int_value(),
                    1,
                    0,
                    offline_text(revision),
                )
            },
            (_, Some(_)) => {
                &&& next_stage(step, revision) matches Some(Stage::Answer { status, found })
                &&& found
                &&& describes(
                    status,
                    handshake.protocol_version.int_value(),
                    1,
                    1,
                    starting_text(revision),
                )
            },
            (ServerDeploymentStatus::Connectable, None) => {
                &&& step matches SessionStep::Finished(Ending::ForwardLogin(bytes))
                &&& bytes@ == handshake.all@
            },
            (ServerDeploymentStatus::Offline, None) => next_stage(step, revision) == Some(
                Stage::Start(server),
            ),
            (_, None) => {
                &&& next_stage(step, revision) matches Some(Stage::Disconnect(reason))
                &&& reason@ == STARTING_REASON@
            },
        },
    }
}

/// What a lookup that has come to `found` leads to.
pub open spec fn after_lookup(
    revision: Seq<char>,
    handshake: Handshake,
    request: Option<Packet>,
    found: QueryStep,
    step: SessionStep,
) -> bool {
    match found {
        QueryStep::Next(q) => next_stage(step, revision) == Some(
            Stage::Lookup { handshake, request, query: q },
        ),
        QueryStep::Failed(error) => match request {
            Some(_) => {
                &&& next_stage(step, revision) matches Some(Stage::Answer { status, found })
                &&& !found
                &&& describes(
                    status,
                    handshake.protocol_version.int_value(),
                    0,
                    0,
                    missing_text(handshake.server_address.value@, revision),
                )
            },
            None => step == SessionStep::Failed(error),
        },
        QueryStep::Found(server) => match server.connection_target() {
            Some(target) => {
                &&& next_stage(step, revision) matches Some(
                    Stage::Connect { handshake: h, request: r, server: s, address },
                )
                &&& h == handshake
                &&& r == request
                &&& s == server
                &&& address@ == target
            },
            None => serves(revision, handshake, request, server, false, step),
        },
    }
}

/// Goes on with a server that was found, once it is known whether it can be connected to.
fn serve(
    revision: String,
    handshake: Handshake,
    request: Option<Packet>,
    server: Server,
    connectable: bool,
) -> (step: SessionStep)
    ensures
        serves(revision@, handshake, request, server, connectable, step),
{
    let status = match server.query_status(connectable) {
        Ok(status) => status,
        Err(error) => return SessionStep::Failed(error),
    };
    match request {
        Some(packet) => match handle_status(&handshake, status, revision.as_str()) {
            StatusReply::Proxy => {
                let (first, second) = proxy_status(&handshake, &packet);
                SessionStep::Finished(Ending::ForwardStatus(first, second))
            },
            StatusReply::Answer(answer) => SessionStep::Next(
                Session { revision, stage: Stage::Answer { status: answer, found: true } },
            ),
        },
        None => match handle_login(status) {
            LoginReply::Proxy => SessionStep::Finished(
                Ending::ForwardLogin(handshake.wire_bytes()),
            ),
            LoginReply::SendAway => SessionStep::Next(
                Session { revision, stage: Stage::Disconnect(STARTING_REASON.to_string()) },
            ),
            LoginReply::Start => SessionStep::Next(
                Session { revision, stage: Stage::Start(server) },
            ),
        },
    }
}

impl Session {
    /// Whether the machine can go on with `event`.
    pub open spec fn accepts(self, event: Event) -> bool {
        match (self.stage, event) {
            (Stage::Handshake, Event::Packet(_)) => true,
            (Stage::Filter(_), Event::Filtered(_)) => true,
            (Stage::StatusRequest(_), Event::Packet(_)) => true,
            (Stage::Lookup { query, .. }, Event::Cluster(answer)) => {
                &&& query.answered_by(answer)
                &&& match (query.stage, answer) {
                    (
                        QueryStage::Service { deployment, .. },
                        QueryEvent::Service(Ok(service)),
                    ) => answerable(deployment, service),
                    _ => true,
                }
            },
            (Stage::Connect { .. }, Event::Connected(_)) => true,
            (Stage::Answer { .. }, Event::Sent) => true,
            (Stage::Ping { .. }, Event::Packet(_)) => true,
            (Stage::Start(server), Event::Started) => has_port_list(server.srv),
            (Stage::Watch(_), Event::Watched) => true,
            (Stage::Disconnect(_), Event::Packet(_)) => true,
            _ => false,
        }
    }

    /// What `event` leads to, where the machine can go on with it.
    pub open spec fn leads_to(self, event: Event, step: SessionStep) -> bool {
        match (self.stage, event) {
            (Stage::Handshake, Event::Packet(packet)) => {
                if packet.id.int_value() != 0 {
                    fails_with(
                        step,
                        "Client HANDSHAKE -> bad packet; id="@ + decimal(
                            packet.id.int_value() as int,
                        ) + " Disconnecting..."@,
                    )
                } else {
                    match handshake_in(packet.data@) {
                        Some(fields) => {
                            &&& next_stage(step, self.revision@) matches Some(
                                Stage::Filter(handshake),
                            )
                            &&& handshake.fields() == fields
                            &&& handshake.all@ == packet.all@
                        },
                        None => fails_with(
                            step,
                            "Client HANDSHAKE -> malformed packet; Disconnecting..."@,
                        ),
                    }
                }
            },
            (Stage::Filter(handshake), Event::Filtered(filtered)) => {
                if filtered {
                    step == SessionStep::Finished(Ending::Dropped)
                } else {
                    match ProtocolState::requested(handshake.next_state.int_value()) {
                        Some(ProtocolState::Status) => next_stage(step, self.revision@) == Some(
                            Stage::StatusRequest(handshake),
                        ),
                        Some(ProtocolState::Login) => {
                            &&& next_stage(step, self.revision@) matches Some(
                                Stage::Lookup { handshake: h, request, query },
                            )
                            &&& h == handshake
                            &&& request is None
                            &&& query.looks_up(
                                without_trailing_dots(handshake.server_address.value@),
                                decimal(handshake.server_port.value as int),
                            )
                        },
                        Some(_) => fails_with(
                            step,
                            "next state is transfer; Not yet implemented!"@,
                        ),
                        None => fails_with(
                            step,
                            "Client HANDSHAKE -> malformed packet; Disconnecting..."@,
                        ),
                    }
                }
            },
            (Stage::StatusRequest(handshake), Event::Packet(packet)) => {
                if packet.id.int_value() != 0 {
                    fails_with(
                        step,
                        "Client STATUS: "@ + prefixed_hex(packet.id.int_value())
                            + " Unknown Id -> Shutdown"@,
                    )
                } else {
                    &&& next_stage(step, self.revision@) matches Some(
                        Stage::Lookup { handshake: h, request, query },
                    )
                    &&& h == handshake
                    &&& request == Some(packet)
                    &&& query.looks_up(
                        handshake.server_address.value@,
                        decimal(handshake.server_port.value as int),
                    )
                }
            },
            (Stage::Lookup { handshake, request, query }, Event::Cluster(answer)) => {
                exists|found: QueryStep|
                    #[trigger] query.leads_to(answer, found) && after_lookup(
                        self.revision@,
                        handshake,
                        request,
                        found,
                        step,
                    )
            },
            (
                Stage::Connect { handshake, request, server, .. },
                Event::Connected(connectable),
            ) => serves(self.revision@, handshake, request, server, connectable, step),
            (Stage::Answer { found: known, .. }, Event::Sent) => next_stage(step, self.revision@)
                == Some(Stage::Ping { found: known }),
            (Stage::Ping { found }, Event::Packet(packet)) => {
                if !found {
                    &&& step matches SessionStep::Finished(Ending::BadPong(bytes))
                    &&& bytes@ == frame(var_int_bytes(9), Seq::new(8, |i: int| 0u8)) + Seq::new(
                        8,
                        |i: int| 0u8,
                    )
                } else if packet.id.int_value() == 1 {
                    &&& step matches SessionStep::Finished(Ending::Pong(bytes))
                    &&& bytes@ == packet.all@
                } else {
                    fails_with(
                        step,
                        "Expected ping packet, got: "@ + decimal(packet.id.int_value() as int),
                    )
                }
            },
            (Stage::Start(server), Event::Started) => match node_port(server.srv) {
                Some(n) => {
                    &&& next_stage(step, self.revision@) matches Some(Stage::Watch(target))
                    &&& target.addr@ == server.server_addr@
                    &&& target.port@ == decimal(n as int)
                    &&& target.full_addr@ == watch_key(server.server_addr@, decimal(n as int))
                },
                None => fails_with(step, "could not get port of server"@),
            },
            (Stage::Watch(_), Event::Watched) => {
                &&& next_stage(step, self.revision@) matches Some(Stage::Disconnect(reason))
                &&& reason@ == STARTED_REASON@
            },
            (Stage::Disconnect(reason), Event::Packet(_)) => {
                if var_string_fits(reason@) {
                    &&& step matches SessionStep::Finished(Ending::Disconnect(bytes))
                    &&& bytes@ == frame(var_int_bytes(0), var_string_bytes(reason@))
                } else {
                    fails_with(step, "failed to *create* disconnect packet"@)
                }
            },
            _ => false,
        }
    }

    /// A connection that was just made, to an ingress of the given revision.
    pub fn open(revision: &str) -> (session: Session)
        ensures
            session.revision@ == revision@,
            session.stage is Handshake,
    {
        Session { revision: revision.to_string(), stage: Stage::Handshake }
    }

    /// Whether the machine can go on with `event`.
    pub fn can_take(&self, event: &Event) -> (accepted: bool)
        ensures
            accepted == self.accepts(*event),
    {
        match (&self.stage, event) {
            (Stage::Handshake, Event::Packet(_)) => true,
            (Stage::Filter(_), Event::Filtered(_)) => true,
            (Stage::StatusRequest(_), Event::Packet(_)) => true,
            (Stage::Lookup { query, .. }, Event::Cluster(answer)) => query.answers(answer)
                && match (&query.stage, answer) {
                (
                    QueryStage::Service { deployment, .. },
                    QueryEvent::Service(Ok(service)),
                ) => !deployment_needs_connection(deployment) || lists_ports(service),
                _ => true,
            },
            (Stage::Connect { .. }, Event::Connected(_)) => true,
            (Stage::Answer { .. }, Event::Sent) => true,
            (Stage::Ping { .. }, Event::Packet(_)) => true,
            (Stage::Start(server), Event::Started) => server.has_port_list(),
            (Stage::Watch(_), Event::Watched) => true,
            (Stage::Disconnect(_), Event::Packet(_)) => true,
            _ => false,
        }
    }

    /// What is to be done next.
    pub fn action(&self) -> (action: Action<'_>)
        ensures
            match self.stage {
                Stage::Handshake => action is ReadPacket,
                Stage::Filter(handshake) => action matches Action::AskFilter(addr) && addr@
                    == handshake.server_address.value@,
                Stage::StatusRequest(_) => action is ReadPacket,
                Stage::Lookup { query, .. } => action matches Action::AskCluster(asked)
                    && query.asks(asked),
                Stage::Connect { address, .. } => action matches Action::Connect(a) && a@
                    == address@,
                Stage::Answer { status, .. } => action matches Action::SendStatus(s) && *s
                    == status,
                Stage::Ping { .. } => action is ReadPacket,
                Stage::Start(server) => action matches Action::Scale(scale) && scale.scales(
                    server,
                    1,
                ),
                Stage::Watch(watched) => action matches Action::Watch { target, seconds }
                    && *target == watched && seconds == WATCH_SECONDS,
                Stage::Disconnect(_) => action is ReadPacket,
            },
    {
        match &self.stage {
            Stage::Handshake => Action::ReadPacket,
            Stage::Filter(handshake) => Action::AskFilter(handshake.get_server_address()),
            Stage::StatusRequest(_) => Action::ReadPacket,
            Stage::Lookup { query, .. } => Action::AskCluster(query.action()),
            Stage::Connect { address, .. } => Action::Connect(address.as_str()),
            Stage::Answer { status, .. } => Action::SendStatus(status),
            Stage::Ping { .. } => Action::ReadPacket,
            Stage::Start(server) => Action::Scale(server.start()),
            Stage::Watch(target) => Action::Watch { target, seconds: WATCH_SECONDS },
            Stage::Disconnect(_) => Action::ReadPacket,
        }
    }

    /// Goes on with what happened.
    pub fn step(self, event: Event) -> (step: SessionStep)
        requires
            self.accepts(event),
        ensures
            self.leads_to(event, step),
    {
        let revision = self.revision;
        match (self.stage, event) {
            (Stage::Handshake, Event::Packet(packet)) => match read_handshake(packet) {
                Ok(handshake) => SessionStep::Next(
                    Session { revision, stage: Stage::Filter(handshake) },
                ),
                Err(error) => SessionStep::Failed(error),
            },
            (Stage::Filter(handshake), Event::Filtered(filtered)) => {
                match process_connection(handshake, filtered) {
                    Ok(Route::Dropped) => SessionStep::Finished(Ending::Dropped),
                    Ok(Route::Status(handshake)) => SessionStep::Next(
                        Session { revision, stage: Stage::StatusRequest(handshake) },
                    ),
                    Ok(Route::Login(handshake)) => {
                        let query = login_lookup(&handshake);
                        SessionStep::Next(
                            Session {
                                revision,
                                stage: Stage::Lookup { handshake, request: None, query },
                            },
                        )
                    },
                    Err(error) => SessionStep::Failed(error),
                }
            },
            (Stage::StatusRequest(handshake), Event::Packet(packet)) => {
                match status_lookup(&handshake, &packet) {
                    Ok(query) => SessionStep::Next(
                        Session {
                            revision,
                            stage: Stage::Lookup { handshake, request: Some(packet), query },
                        },
                    ),
                    Err(error) => SessionStep::Failed(error),
                }
            },
            (Stage::Lookup { handshake, request, query }, Event::Cluster(answer)) => {
                let ghost asked = query;
                let found = query.step(answer);
                assert(asked.leads_to(answer, found));
                match found {
                    QueryStep::Next(query) => SessionStep::Next(
                        Session { revision, stage: Stage::Lookup { handshake, request, query } },
                    ),
                    QueryStep::Failed(error) => match request {
                        Some(_) => {
                            let status = missing_status(&handshake, revision.as_str());
                            SessionStep::Next(
                                Session { revision, stage: Stage::Answer { status, found: false } },
                            )
                        },
                        None => SessionStep::Failed(error),
                    },
                    QueryStep::Found(server) => match server.connection() {
                        Some(address) => SessionStep::Next(
                            Session {
                                revision,
                                stage: Stage::Connect { handshake, request, server, address },
                            },
                        ),
                        None => serve(revision, handshake, request, server, false),
                    },
                }
            },
            (
                Stage::Connect { handshake, request, server, .. },
                Event::Connected(connectable),
            ) => serve(revision, handshake, request, server, connectable),
            (Stage::Answer { found, .. }, Event::Sent) => SessionStep::Next(
                Session { revision, stage: Stage::Ping { found } },
            ),
            (Stage::Ping { found }, Event::Packet(packet)) => {
                if found {
                    match handle_ping(&packet) {
                        Ok(bytes) => SessionStep::Finished(Ending::Pong(bytes)),
                        Err(error) => SessionStep::Failed(error),
                    }
                } else {
                    SessionStep::Finished(Ending::BadPong(bad_pong().wire_bytes()))
                }
            },
            (Stage::Start(server), Event::Started) => {
                match watch_target(server.get_addr(), server.get_port()) {
                    Ok(target) => SessionStep::Next(
                        Session { revision, stage: Stage::Watch(target) },
                    ),
                    Err(error) => SessionStep::Failed(error),
                }
            },
            (Stage::Watch(_), Event::Watched) => SessionStep::Next(
                Session { revision, stage: Stage::Disconnect(STARTED_REASON.to_string()) },
            ),
            (Stage::Disconnect(reason), Event::Packet(_)) => {
                match send_disconnect(reason.as_str()) {
                    Ok(disconnect) => SessionStep::Finished(
                        Ending::Disconnect(disconnect.wire_bytes()),
                    ),
                    Err(error) => SessionStep::Failed(error),
                }
            },
            _ => vstd::pervasive::unreached(),
        }
    }
}

/// How many steps may follow at the most.
pub open spec fn steps_left(stage: Stage) -> nat {
    match stage {
        Stage::Handshake => 12,
        Stage::Filter(_) => 11,
        Stage::StatusRequest(_) => 10,
        Stage::Lookup { query, .. } => match query.stage {
            QueryStage::Deployments => 9,
            QueryStage::Services { .. } => 8,
            QueryStage::Deployment { .. } => 7,
            QueryStage::Service { .. } => 6,
        },
        Stage::Connect { .. } => 5,
        Stage::Answer { .. } => 4,
        Stage::Start(_) => 4,
        Stage::Watch(_) => 3,
        Stage::Ping { .. } => 2,
        Stage::Disconnect(_) => 2,
    }
}

/// A connection that is answered comes to an end: every step leaves fewer to be made.
pub proof fn law_every_step_advances(session: Session, event: Event, next: Session)
    requires
        session.leads_to(event, SessionStep::Next(next)),
    ensures
        steps_left(next.stage) < steps_left(session.stage),
{
}

/// The handshake that a stage holds.
pub open spec fn held_handshake(stage: Stage) -> Option<Handshake> {
    match stage {
        Stage::Filter(handshake) => Some(handshake),
        Stage::StatusRequest(handshake) => Some(handshake),
        Stage::Lookup { handshake, .. } => Some(handshake),
        Stage::Connect { handshake, .. } => Some(handshake),
        _ => None,
    }
}

/// The request for the status of a server that a stage holds.
pub open spec fn held_request(stage: Stage) -> Option<Packet> {
    match stage {
        Stage::Lookup { request, .. } => request,
        Stage::Connect { request, .. } => request,
        _ => None,
    }
}

/// What the client sent is kept as it came until it is passed on: the handshake and the request of
/// one stage are those of the next, and what is passed on is all their bytes.
pub proof fn law_forwarded_as_it_came(session: Session, event: Event, step: SessionStep)
    requires
        session.leads_to(event, step),
    ensures
        step matches SessionStep::Next(next) ==> {
            &&& held_handshake(session.stage) is Some && held_handshake(next.stage) is Some
                ==> held_handshake(next.stage) == held_handshake(session.stage)
            &&& held_request(session.stage) is Some && held_request(next.stage) is Some
                ==> held_request(next.stage) == held_request(session.stage)
        },
        step matches SessionStep::Finished(Ending::ForwardLogin(bytes)) ==> (held_handshake(
            session.stage,
        ) matches Some(handshake) && bytes@ == handshake.all@),
        step matches SessionStep::Finished(Ending::ForwardStatus(first, second)) ==> ((
        held_handshake(session.stage) matches Some(handshake) && first@ == handshake.all@) && (
        held_request(session.stage) matches Some(request) && second@ == request.all@)),
{
}

/// What is kept is what was read: of a packet that was read from the start of the stream `s`, the
/// handshake or the request that the next stage holds has just the bytes that the packet took.
pub proof fn law_kept_as_it_was_read(session: Session, s: Seq<u8>, packet: Packet, next: Session)
    requires
        holds_packet(s, packet),
        session.leads_to(Event::Packet(packet), SessionStep::Next(next)),
    ensures
        session.stage is Handshake ==> (held_handshake(next.stage) matches Some(handshake)
            && handshake.all@ == s.take(framing(s)->end as int)),
        session.stage is StatusRequest ==> (held_request(next.stage) matches Some(request)
            && request.all@ == s.take(framing(s)->end as int)),
{
}

/// Whether the client joins, as far as a stage tells.
pub open spec fn joins(stage: Stage) -> bool {
    match stage {
        Stage::Lookup { request, .. } => request is None,
        Stage::Connect { request, .. } => request is None,
        Stage::Start(_) => true,
        Stage::Watch(_) => true,
        Stage::Disconnect(_) => true,
        _ => false,
    }
}

/// Only a client that joins makes a server start, or is sent away: such a connection began with a
/// handshake that asks for a login and does not match the filter.
pub proof fn law_only_joins_start_servers(session: Session, event: Event, next: Session)
    requires
        session.leads_to(event, SessionStep::Next(next)),
        joins(next.stage),
    ensures
        joins(session.stage) || (session.stage matches Stage::Filter(handshake)
            && ProtocolState::requested(handshake.next_state.int_value()) == Some(
            ProtocolState::Login,
        ) && event == Event::Filtered(false)),
{
}

/// A server is started only where its deployment asks for no replicas at all.
pub proof fn law_only_offline_servers_are_started(session: Session, event: Event, next: Session)
    requires
        session.leads_to(event, SessionStep::Next(next)),
        next.stage is Start,
    ensures
        next.stage->Start_0.dep.status matches Some(status) && count(status.replicas) <= 0,
{
}

/// A handshake that matches the filter ends the connection, and nothing is sent.
pub proof fn law_filtered_is_dropped(session: Session, step: SessionStep)
    requires
        session.stage is Filter,
        session.leads_to(Event::Filtered(true), step),
    ensures
        step == SessionStep::Finished(Ending::Dropped),
{
}

} // verus!
