//! What holds of every connection, in terms of what the client sent and what the cluster said.
use vstd::prelude::*;

use crate::address::{sanitized, without_trailing_dots};
use crate::mc_api::{QueryEvent, QueryStage, QueryStep};
use crate::packets::serverbound::handshake::{handshake_fields, Handshake};
use crate::packets::{frame, Packet};
use crate::server::{answerable, has_port_list, node_port};
use crate::session::{Action, Ending, Event, Session, SessionStep, Stage};
use crate::text::{decimal, prefixed_hex};
use crate::types::{var_bytes, var_int_bytes, var_string_bytes, var_string_fits};

verus! {

/// The functions of the machine do what its laws speak of.
pub proof fn law_session_obeys(
    revision: &str,
    opened: Session,
    session: Session,
    event: Event,
    accepted: bool,
    step: SessionStep,
)
    requires
        call_ensures(Session::open, (revision,), opened),
        call_ensures(Session::can_take, (&session, &event), accepted),
        session.accepts(event),
        call_ensures(Session::step, (session, event), step),
    ensures
        opened.revision@ == revision@,
        opened.stage is Handshake,
        accepted,
        session.leads_to(event, step),
        step matches SessionStep::Next(next) ==> next.revision@ == session.revision@,
{
}

/// What is done, stage by stage. The server that is started is scaled to one replica, and a look is
/// taken at it every ten minutes.
pub proof fn law_session_does(session: Session, action: Action)
    requires
        call_ensures(Session::action, (&session,), action),
    ensures
        action is ReadPacket <==> {
            ||| session.stage is Handshake
            ||| session.stage is StatusRequest
            ||| session.stage is Ping
            ||| session.stage is Disconnect
        },
        session.stage matches Stage::Filter(handshake) ==> (action matches Action::AskFilter(addr)
            && addr@ == handshake.server_address.value@),
        session.stage matches Stage::Lookup { query, .. } ==> (
        action matches Action::AskCluster(asked) && query.asks(asked)),
        session.stage matches Stage::Connect { address, .. } ==> (
        action matches Action::Connect(tried) && tried@ == address@),
        session.stage matches Stage::Answer { status, .. } ==> (
        action matches Action::SendStatus(told) && *told == status),
        session.stage matches Stage::Start(server) ==> (action matches Action::Scale(scale) && {
            &&& scale.replicas == 1
            &&& server.srv.metadata.name matches Some(name) ==> scale.name@ == name@
            &&& server.srv.metadata.name is None ==> scale.name@ == "#error#"@
        }),
        action is Scale ==> session.stage is Start,
        session.stage matches Stage::Watch(watched) ==> (
        action matches Action::Watch { target, seconds } && *target == watched && seconds == 600),
{
}

/// Every stage takes the event that it waits for; a service that was fetched it takes if it can be
/// made out what the server is up to, and a server that was started if its service says where it
/// is.
pub proof fn law_session_takes(session: Session, event: Event)
    ensures
        session.accepts(event) <==> match session.stage {
            Stage::Handshake => event is Packet,
            Stage::Filter(_) => event is Filtered,
            Stage::StatusRequest(_) => event is Packet,
            Stage::Lookup { query, .. } => event matches Event::Cluster(answer)
                && query.answered_by(answer) && match (query.stage, answer) {
                (
                    QueryStage::Service { deployment, .. },
                    QueryEvent::Service(Ok(service)),
                ) => answerable(deployment, service),
                _ => true,
            },
            Stage::Connect { .. } => event is Connected,
            Stage::Answer { .. } => event is Sent,
            Stage::Ping { .. } => event is Packet,
            Stage::Start(server) => event is Started && has_port_list(server.srv),
            Stage::Watch(_) => event is Watched,
            Stage::Disconnect(_) => event is Packet,
        },
{
}

/// The first packet is a handshake, or the connection fails: it has the id 0, all its fields, and
/// asks for the status, a login or a transfer.
pub proof fn law_first_packet_is_a_handshake(session: Session, packet: Packet, step: SessionStep)
    requires
        session.stage is Handshake,
        session.leads_to(Event::Packet(packet), step),
    ensures
        step is Next <==> {
            &&& packet.id.int_value() == 0
            &&& handshake_fields(packet.data@) matches Some(fields)
            &&& 1 <= fields.next_state <= 3
        },
        step matches SessionStep::Next(next) ==> {
            &&& next.stage matches Stage::Filter(handshake)
            &&& handshake_fields(packet.data@) == Some(handshake.fields())
            &&& handshake.all@ == packet.all@
            &&& next.revision@ == session.revision@
        },
        step !is Next ==> step is Failed,
        packet.id.int_value() != 0 ==> (step matches SessionStep::Failed(e) && e.context@
            == "Client HANDSHAKE -> bad packet; id="@ + decimal(packet.id.int_value() as int)
            + " Disconnecting..."@),
        packet.id.int_value() == 0 ==> (step matches SessionStep::Failed(e) ==> e.context@
            == "Client HANDSHAKE -> malformed packet; Disconnecting..."@),
{
}

/// A handshake that matches the filter is dropped, whatever it asks for; any other leads where it
/// asks to, and a transfer fails.
pub proof fn law_handshake_decides(session: Session, filtered: bool, step: SessionStep)
    requires
        session.stage is Filter,
        session.leads_to(Event::Filtered(filtered), step),
    ensures
        ({
            let handshake = session.stage->Filter_0;
            let asked = handshake.next_state.int_value();
            &&& filtered <==> step == SessionStep::Finished(Ending::Dropped)
            &&& !filtered && asked == 1 ==> (step matches SessionStep::Next(next) && next.stage
                == Stage::StatusRequest(handshake))
            &&& !filtered && asked == 2 ==> {
                &&& step matches SessionStep::Next(next)
                &&& next.stage matches Stage::Lookup { handshake: h, request, query }
                &&& h == handshake
                &&& request is None
                &&& query.stage is Deployments
                &&& query.addr@ == sanitized(
                    without_trailing_dots(handshake.server_address.value@),
                )
                &&& query.port@ == decimal(handshake.server_port.value as int)
            }
            &&& !filtered && asked == 3 ==> (step matches SessionStep::Failed(e) && e.context@
                == "next state is transfer; Not yet implemented!"@)
            &&& !filtered && !(1 <= asked <= 3) ==> step is Failed
        }),
{
}

/// A status request has the id 0, and leads to the lookup of the server of the handshake; any other
/// packet fails the connection.
pub proof fn law_status_request_is_looked_up(session: Session, packet: Packet, step: SessionStep)
    requires
        session.stage is StatusRequest,
        session.leads_to(Event::Packet(packet), step),
    ensures
        ({
            let handshake = session.stage->StatusRequest_0;
            &&& packet.id.int_value() == 0 ==> {
                &&& step matches SessionStep::Next(next)
                &&& next.stage matches Stage::Lookup { handshake: h, request, query }
                &&& h == handshake
                &&& request == Some(packet)
                &&& query.stage is Deployments
                &&& query.addr@ == sanitized(handshake.server_address.value@)
                &&& query.port@ == decimal(handshake.server_port.value as int)
            }
            &&& packet.id.int_value() != 0 ==> (step matches SessionStep::Failed(e) && e.context@
                == "Client STATUS: "@ + prefixed_hex(packet.id.int_value())
                + " Unknown Id -> Shutdown"@)
        }),
{
}

/// A lookup goes on with the same handshake and request. Where it fails, a client that joins is
/// failed with its error, and one that asks for the status is told that there is no such server.
pub proof fn law_lookup_of_a_session(session: Session, answer: QueryEvent, step: SessionStep)
    requires
        session.stage is Lookup,
        session.leads_to(Event::Cluster(answer), step),
    ensures
        exists|found: QueryStep| #[trigger]
            session.stage->Lookup_query.leads_to(answer, found) && {
                let handshake = session.stage->Lookup_handshake;
                let request = session.stage->Lookup_request;
                &&& found matches QueryStep::Next(query) ==> (step matches SessionStep::Next(next)
                    && next.stage == (Stage::Lookup { handshake, request, query }))
                &&& found matches QueryStep::Failed(error) ==> {
                    &&& request is None ==> step == SessionStep::Failed(error)
                    &&& request is Some ==> {
                        &&& step matches SessionStep::Next(next)
                        &&& next.stage matches Stage::Answer { status, found: there }
                        &&& !there
                        &&& status.version.protocol == handshake.protocol_version.int_value()
                        &&& status.players.max == 0
                        &&& status.players.online == 0
                        &&& status.description.text@ == "Could not find §kserver§r: §f§o"@
                            + handshake.server_address.value@ + "§r\nMinecraft Ingress"@ + (
                        " - §dTami§r with §d<3§r §8(rev: "@ + session.revision@ + ")§r"@)
                    }
                }
            },
{
    let found = choose|found: QueryStep| #[trigger]
        session.stage->Lookup_query.leads_to(answer, found) && crate::session::after_lookup(
            session.revision@,
            session.stage->Lookup_handshake,
            session.stage->Lookup_request,
            found,
            step,
        );
    assert(session.stage->Lookup_query.leads_to(answer, found));
}

/// A server of which a replica is ready and which has a node port is tried at that, before anything
/// is answered.
pub proof fn law_ready_servers_are_tried_first(
    session: Session,
    answer: QueryEvent,
    step: SessionStep,
)
    requires
        session.stage is Lookup,
        session.leads_to(Event::Cluster(answer), step),
        session.stage->Lookup_query.stage is Service,
        answer matches QueryEvent::Service(fetched) && fetched is Ok,
    ensures
        ({
            let deployment = session.stage->Lookup_query.stage->Service_deployment;
            let service = answer->Service_0->Ok_0;
            let ready = {
                &&& deployment.status matches Some(s)
                &&& s.replicas matches Some(n)
                &&& n > 0
                &&& s.ready_replicas matches Some(r)
                &&& r > 0
            };
            &&& ready && node_port(service) is Some ==> {
                &&& step matches SessionStep::Next(next)
                &&& next.stage matches Stage::Connect { handshake, request, server, address }
                &&& handshake == session.stage->Lookup_handshake
                &&& request == session.stage->Lookup_request
                &&& server.dep == deployment
                &&& server.srv == service
                &&& server.server_addr@ == session.stage->Lookup_query.addr@
                &&& address@ == "localhost:"@ + decimal(node_port(service)->Some_0 as int)
            }
            &&& (step matches SessionStep::Next(next) && next.stage is Connect) ==> ready
                && node_port(service) is Some
        }),
{
}

/// The deployment that a stage has come to, where it has come to one.
pub open spec fn known_deployment(stage: Stage) -> Option<crate::kubernetes::Deployment> {
    match stage {
        Stage::Connect { server, .. } => Some(server.dep),
        Stage::Lookup { query, .. } => match query.stage {
            QueryStage::Service { deployment, .. } => Some(deployment),
            _ => None,
        },
        _ => None,
    }
}

/// A client that asks for the status of a server that was found is told that it starts exactly if
/// its deployment has replicas, and that it does not run exactly if it has none.
pub proof fn law_status_tells_the_replicas(session: Session, event: Event, next: Session)
    requires
        session.leads_to(event, SessionStep::Next(next)),
        next.stage matches Stage::Answer { found, .. } && found,
    ensures
        known_deployment(session.stage) matches Some(deployment)
            && deployment.status matches Some(s) && {
            let told = next.stage->Answer_status;
            let bye = " - §dTami§r with §d<3§r §8(rev: "@ + session.revision@ + ")§r"@;
            &&& told.players.max == 1
            &&& (s.replicas matches Some(n) && n > 0) ==> told.players.online == 1
                && told.description.text@ == "§aServer is starting...§r please wait\n"@ + bye
            &&& !(s.replicas matches Some(n) && n > 0) ==> told.players.online == 0
                && told.description.text@
                == "Server is currently §onot§r running. \n§aJoin to start it!§r    "@ + bye
            &&& told.version.name@.len() == 0
            &&& crate::session::held_handshake(session.stage) matches Some(handshake)
            &&& told.version.protocol == handshake.protocol_version.int_value()
            &&& crate::session::held_request(session.stage) is Some
        },
{
}

/// What comes of a try to connect, for a client that asks for the status: what the server answers
/// itself, if the connection stands and a replica is ready, and else what the ingress tells for it.
pub proof fn law_status_of_a_tried_server(session: Session, connected: bool, step: SessionStep)
    requires
        session.stage is Connect,
        session.stage->Connect_request is Some,
        session.leads_to(Event::Connected(connected), step),
    ensures
        ({
            let server = session.stage->Connect_server;
            &&& server.dep.status is None <==> step is Failed
            &&& server.dep.status matches Some(s) ==> {
                let ready = {
                    &&& s.replicas matches Some(n)
                    &&& n > 0
                    &&& s.ready_replicas matches Some(r)
                    &&& r > 0
                };
                &&& ready && connected ==> {
                    &&& step matches SessionStep::Finished(Ending::ForwardStatus(first, second))
                    &&& first@ == session.stage->Connect_handshake.all@
                    &&& second@ == session.stage->Connect_request->Some_0.all@
                }
                &&& !(ready && connected) ==> (step matches SessionStep::Next(next)
                    && next.stage matches Stage::Answer { found, .. } && found)
            }
        }),
{
}

/// What comes of a join, once it is known whether the server takes a connection: it is passed on to
/// one that does and of which a replica is ready; one that has no replicas is started; and any
/// other is waited for.
pub proof fn law_join_of_a_tried_server(session: Session, connected: bool, step: SessionStep)
    requires
        session.stage is Connect,
        session.stage->Connect_request is None,
        session.leads_to(Event::Connected(connected), step),
    ensures
        ({
            let server = session.stage->Connect_server;
            &&& server.dep.status is None <==> step is Failed
            &&& server.dep.status matches Some(s) ==> {
                let runs = s.replicas matches Some(n) && n > 0;
                let ready = s.ready_replicas matches Some(r) && r > 0;
                &&& runs && ready && connected ==> (
                step matches SessionStep::Finished(Ending::ForwardLogin(bytes)) && bytes@
                    == session.stage->Connect_handshake.all@)
                &&& runs && !(ready && connected) ==> (step matches SessionStep::Next(next)
                    && next.stage matches Stage::Disconnect(reason) && reason@
                    == "Starting...§d<3§r"@)
                &&& !runs ==> (step matches SessionStep::Next(next) && next.stage == Stage::Start(
                    server,
                ))
            }
        }),
{
}

/// What comes of a join to a server that is not tried, since none of its replicas is ready or it
/// has no node port: one that has no replicas is started, and any other is waited for.
pub proof fn law_join_of_a_server_that_is_not_ready(
    session: Session,
    answer: QueryEvent,
    step: SessionStep,
)
    requires
        session.stage is Lookup,
        session.stage->Lookup_request is None,
        session.leads_to(Event::Cluster(answer), step),
        session.stage->Lookup_query.stage is Service,
        answer matches QueryEvent::Service(fetched) && fetched is Ok,
    ensures
        ({
            let deployment = session.stage->Lookup_query.stage->Service_deployment;
            let service = answer->Service_0->Ok_0;
            &&& deployment.status is None <==> step is Failed
            &&& deployment.status matches Some(s) ==> {
                let runs = s.replicas matches Some(n) && n > 0;
                let ready = s.ready_replicas matches Some(r) && r > 0;
                &&& !runs ==> (step matches SessionStep::Next(next)
                    && next.stage matches Stage::Start(server) && server.dep == deployment
                    && server.srv == service && server.server_addr@
                    == session.stage->Lookup_query.addr@)
                &&& runs && !(ready && node_port(service) is Some) ==> (
                step matches SessionStep::Next(next) && next.stage matches Stage::Disconnect(
                    reason,
                ) && reason@ == "Starting...§d<3§r"@)
            }
        }),
{
}

/// Once a status is told, the ping is waited for. A ping for a server that was found has the id 1
/// and is sent back as it came; for one that was not, what is sent back is no ping.
pub proof fn law_pings(session: Session, event: Event, step: SessionStep)
    requires
        session.leads_to(event, step),
    ensures
        session.stage matches Stage::Answer { found, .. } ==> (step matches SessionStep::Next(next)
            && next.stage == (Stage::Ping { found })),
        (session.stage == (Stage::Ping { found: true })) ==> (event matches Event::Packet(ping) && {
            &&& ping.id.int_value() == 1 ==> (step matches SessionStep::Finished(
                Ending::Pong(bytes),
            ) && bytes@ == ping.all@)
            &&& ping.id.int_value() != 1 ==> (step matches SessionStep::Failed(e) && e.context@
                == "Expected ping packet, got: "@ + decimal(ping.id.int_value() as int))
        }),
        (session.stage == (Stage::Ping { found: false })) ==> (step matches SessionStep::Finished(
            Ending::BadPong(bytes),
        ) && bytes@ == seq![9u8, 9, 0, 0, 0, 0, 0, 0, 0, 0, 0, 0, 0, 0, 0, 0, 0, 0]),
{
    if session.stage == (Stage::Ping { found: false }) {
        reveal_with_fuel(var_bytes, 2);
        let zeros = Seq::new(8, |i: int| 0u8);
        assert(var_int_bytes(9) =~= seq![9u8]);
        assert((var_int_bytes(9) + zeros).len() == 9);
        assert(frame(var_int_bytes(9), zeros) + zeros =~= seq![
            9u8,
            9,
            0,
            0,
            0,
            0,
            0,
            0,
            0,
            0,
            0,
            0,
            0,
            0,
            0,
            0,
            0,
            0,
        ]);
    }
}

/// A server that was started is watched over under its address and its node port; then the client
/// is sent away, with the packet that says why.
pub proof fn law_started_servers_are_watched(session: Session, event: Event, step: SessionStep)
    requires
        session.leads_to(event, step),
    ensures
        session.stage matches Stage::Start(server) ==> match node_port(server.srv) {
            Some(n) => {
                &&& step matches SessionStep::Next(next)
                &&& next.stage matches Stage::Watch(target)
                &&& target.addr@ == server.server_addr@
                &&& target.port@ == decimal(n as int)
                &&& target.full_addr@ == server.server_addr@ + ":"@ + decimal(n as int)
            },
            None => step matches SessionStep::Failed(e) && e.context@
                == "could not get port of server"@,
        },
        session.stage is Watch ==> (step matches SessionStep::Next(next)
            && next.stage matches Stage::Disconnect(reason) && reason@
            == "Okayy_starting_it...§d<3§r"@),
        session.stage matches Stage::Disconnect(reason) ==> (var_string_fits(reason@) ==> (
        step matches SessionStep::Finished(Ending::Disconnect(bytes)) && bytes@ == frame(
            var_int_bytes(0),
            var_string_bytes(reason@),
        ))),
{
}

/// What a client is passed on with is always what it sent: all bytes of its handshake, and of its
/// status request where it sent one.
pub proof fn law_nothing_else_is_forwarded(
    session: Session,
    event: Event,
    handshake: Handshake,
    step: SessionStep,
)
    requires
        session.leads_to(event, step),
        crate::session::held_handshake(session.stage) == Some(handshake),
    ensures
        step matches SessionStep::Finished(Ending::ForwardLogin(bytes)) ==> bytes@
            == handshake.all@ && crate::session::held_request(session.stage) is None,
        step matches SessionStep::Finished(Ending::ForwardStatus(first, second)) ==> first@
            == handshake.all@ && (crate::session::held_request(session.stage) matches Some(request)
            && second@ == request.all@),
{
}

} // verus!
