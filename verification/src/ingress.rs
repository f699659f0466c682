//! The rules by which the ingress treats a connection.
use vstd::prelude::*;

use crate::address::{trim_trailing_dots, without_trailing_dots};
use crate::mc_api::ServerQuery;
use crate::mc_server::ServerDeploymentStatus;
use crate::opaque_error::OpaqueError;
use crate::packets::clientbound::status::StatusStructNew;
use crate::packets::serverbound::handshake::{handshake_fields, handshake_in, Handshake};
use crate::packets::{frame, Packet, ProtocolState};
use crate::text::{decimal, decimal_text, prefixed_hex, prefixed_hex_text};
use crate::types::var_int_bytes;

verus! {

/// The address that the ingress listens on where nothing else is asked for.
pub const DEFAULT_BIND_ADDR: &'static str = "0.0.0.0:25565";

/// The filter for connections where nothing else is asked for.
pub const DEFAULT_FILTER: &'static str = "(addr == \"10.100.0.1\")";

/// How many seconds pass between two looks at a server that was started.
pub const WATCH_SECONDS: u64 = 600;

/// The reason for which a player is sent away while the server starts.
pub const STARTING_REASON: &'static str = "Starting...§d<3§r";

/// The reason for which the player who starts the server is sent away.
pub const STARTED_REASON: &'static str = "Okayy_starting_it...§d<3§r";

/// A setting: the value of its variable, or the default where the variable is not set.
pub fn setting(variable: Option<String>, default: &str) -> (value: String)
    ensures
        match variable {
            Some(v) => value@ == v@,
            None => value@ == default@,
        },
{
    match variable {
        Some(value) => value,
        None => default.to_string(),
    }
}

/// What a connection is for.
#[derive(Debug)]
pub enum Route {
    /// Nothing: it is dropped.
    Dropped,
    /// The client asks what the server says of itself.
    Status(Handshake),
    /// The client joins.
    Login(Handshake),
}

/// The handshake that the first packet of a connection holds.
pub fn read_handshake(client_packet: Packet) -> (handshake: Result<Handshake, OpaqueError>)
    ensures
        client_packet.id.int_value() != 0 ==> (handshake matches Err(e) && e.context@
            == "Client HANDSHAKE -> bad packet; id="@ + decimal(
            client_packet.id.int_value() as int,
        ) + " Disconnecting..."@),
        client_packet.id.int_value() == 0 ==> match handshake_in(client_packet.data@) {
            Some(fields) => handshake matches Ok(h) && h.fields() == fields && h.all@
                == client_packet.all@,
            None => handshake matches Err(e) && e.context@
                == "Client HANDSHAKE -> malformed packet; Disconnecting..."@,
        },
{
    let packet_id: i32 = client_packet.id.get_int();
    if packet_id != 0 {
        let mut text = "Client HANDSHAKE -> bad packet; id=".to_string();
        text.append(decimal_text(packet_id as i64).as_str());
        text.append(" Disconnecting...");
        return Err(OpaqueError::create(text.as_str()));
    }
    match Handshake::parse(client_packet) {
        Some(handshake) => Ok(handshake),
        None => Err(OpaqueError::from("Client HANDSHAKE -> malformed packet; Disconnecting...")),
    }
}

/// What a connection is for, where `filtered` says whether its handshake matches the filter.
pub fn process_connection(handshake: Handshake, filtered: bool) -> (route: Result<
    Route,
    OpaqueError,
>)
    ensures
        filtered ==> route == Ok::<Route, OpaqueError>(Route::Dropped),
        !filtered ==> match ProtocolState::requested(handshake.next_state.int_value()) {
            Some(ProtocolState::Status) => route == Ok::<Route, OpaqueError>(
                Route::Status(handshake),
            ),
            Some(ProtocolState::Login) => route == Ok::<Route, OpaqueError>(
                Route::Login(handshake),
            ),
            Some(_) => route matches Err(e) && e.context@
                == "next state is transfer; Not yet implemented!"@,
            None => route matches Err(e) && e.context@
                == "Client HANDSHAKE -> malformed packet; Disconnecting..."@,
        },
{
    if filtered {
        return Ok(Route::Dropped);
    }
    match ProtocolState::from_next_state(handshake.get_next_state()) {
        Some(ProtocolState::Status) => Ok(Route::Status(handshake)),
        Some(ProtocolState::Login) => Ok(Route::Login(handshake)),
        Some(_) => Err(OpaqueError::create("next state is transfer; Not yet implemented!")),
        None => Err(OpaqueError::from("Client HANDSHAKE -> malformed packet; Disconnecting...")),
    }
}

/// The lookup of the server whose status is asked for, given the packet after the handshake.
pub fn status_lookup(handshake: &Handshake, client_packet: &Packet) -> (query: Result<
    ServerQuery,
    OpaqueError,
>)
    ensures
        match query {
            Ok(q) => client_packet.id.int_value() == 0 && q.looks_up(
                handshake.server_address.value@,
                decimal(handshake.server_port.value as int),
            ),
            Err(e) => client_packet.id.int_value() != 0 && e.context@ == "Client STATUS: "@
                + prefixed_hex(client_packet.id.int_value()) + " Unknown Id -> Shutdown"@,
        },
{
    if client_packet.id.get_int() != 0 {
        let mut text = "Client STATUS: ".to_string();
        text.append(prefixed_hex_text(client_packet.id.get_int()).as_str());
        text.append(" Unknown Id -> Shutdown");
        return Err(OpaqueError::create(text.as_str()));
    }
    let addr = handshake.get_server_address();
    let port = decimal_text(handshake.server_port.get_value() as i64);
    Ok(ServerQuery::query_server(addr.as_str(), port.as_str()))
}

/// The lookup of the server that the client joins.
pub fn login_lookup(handshake: &Handshake) -> (query: ServerQuery)
    ensures
        query.looks_up(
            without_trailing_dots(handshake.server_address.value@),
            decimal(handshake.server_port.value as int),
        ),
{
    let addr = handshake.get_server_address();
    let port = decimal_text(handshake.server_port.get_value() as i64);
    ServerQuery::query_server(trim_trailing_dots(addr.as_str()), port.as_str())
}

/// What the descriptions end with.
pub open spec fn bye(revision: Seq<char>) -> Seq<char> {
    " - §dTami§r with §d<3§r §8(rev: "@ + revision + ")§r"@
}

/// What the descriptions end with.
pub fn bye_message(revision: &str) -> (text: String)
    ensures
        text@ == bye(revision@),
{
    let mut text = " - §dTami§r with §d<3§r §8(rev: ".to_string();
    text.append(revision);
    text.append(")§r");
    text
}

/// The description of a server that is not there.
pub open spec fn missing_text(addr: Seq<char>, revision: Seq<char>) -> Seq<char> {
    "Could not find §kserver§r: §f§o"@ + addr + "§r\nMinecraft Ingress"@ + bye(revision)
}

/// The description of a server that takes no connection yet.
pub open spec fn starting_text(revision: Seq<char>) -> Seq<char> {
    "§aServer is starting...§r please wait\n"@ + bye(revision)
}

/// The description of a server that does not run.
pub open spec fn offline_text(revision: Seq<char>) -> Seq<char> {
    "Server is currently §onot§r running. \n§aJoin to start it!§r    "@ + bye(revision)
}

/// Whether `status` says that a server of the protocol `protocol` has room for `max` players and
/// `online` of them on it, and describes it with `text`.
pub open spec fn describes(
    status: StatusStructNew,
    protocol: i32,
    max: i32,
    online: i32,
    text: Seq<char>,
) -> bool {
    &&& status.version.name@ == Seq::<char>::empty()
    &&& status.version.protocol == protocol
    &&& status.players.max == max
    &&& status.players.online == online
    &&& status.description.text@ == text
}

/// What the client is told of a server that is not there.
pub fn missing_status(handshake: &Handshake, revision: &str) -> (status: StatusStructNew)
    ensures
        describes(
            status,
            handshake.protocol_version.int_value(),
            0,
            0,
            missing_text(handshake.server_address.value@, revision@),
        ),
{
    let mut text = "Could not find §kserver§r: §f§o".to_string();
    text.append(handshake.get_server_address().as_str());
    text.append("§r\nMinecraft Ingress");
    text.append(bye_message(revision).as_str());
    let mut status = StatusStructNew::create();
    status.version.protocol = handshake.protocol_version.get_int();
    status.players.max = 0;
    status.players.online = 0;
    status.description.text = text;
    status
}

/// The answer to a ping for a server that is not there: a broken packet, so that the client goes on
/// to show that it searches.
pub fn bad_pong() -> (pong: Packet)
    ensures
        pong.id.int_value() == 9,
        pong.data@ == Seq::new(8, |i: int| 0u8),
        pong.all@ == frame(var_int_bytes(9), Seq::new(8, |i: int| 0u8)) + Seq::new(
            8,
            |i: int| 0u8,
        ),
{
    let data: Vec<u8> = vec![0, 0, 0, 0, 0, 0, 0, 0];
    assert(data@ =~= Seq::new(8, |i: int| 0u8));
    Packet::new(9, data).unwrap()
}

/// What comes of a status request for a server that is there.
#[derive(Debug)]
pub enum StatusReply {
    /// The server answers for itself.
    Proxy,
    /// The client is told this.
    Answer(StatusStructNew),
}

/// Answers a status request for a server that is up to `status`.
pub fn handle_status(
    handshake: &Handshake,
    status: ServerDeploymentStatus,
    revision: &str,
) -> (reply: StatusReply)
    ensures
        match status {
            ServerDeploymentStatus::Connectable => reply is Proxy,
            ServerDeploymentStatus::Starting | ServerDeploymentStatus::PodOk => {
                reply matches StatusReply::Answer(s) && describes(
                    s,
                    handshake.protocol_version.int_value(),
                    1,
                    1,
                    starting_text(revision@),
                )
            },
            ServerDeploymentStatus::Offline => reply matches StatusReply::Answer(s) && describes(
                s,
                handshake.protocol_version.int_value(),
                1,
                0,
                offline_text(revision@),
            ),
        },
{
    let mut answer = StatusStructNew::create();
    answer.version.protocol = handshake.protocol_version.get_int();
    match status {
        ServerDeploymentStatus::Connectable => return StatusReply::Proxy,
        ServerDeploymentStatus::Starting | ServerDeploymentStatus::PodOk => {
            let mut text = "§aServer is starting...§r please wait\n".to_string();
            text.append(bye_message(revision).as_str());
            answer.players.max = 1;
            answer.players.online = 1;
            answer.description.text = text;
        },
        ServerDeploymentStatus::Offline => {
            let mut text =
                "Server is currently §onot§r running. \n§aJoin to start it!§r    ".to_string();
            text.append(bye_message(revision).as_str());
            answer.players.max = 1;
            answer.description.text = text;
        },
    }
    StatusReply::Answer(answer)
}

/// What comes of a join.
#[derive(Clone, Copy, Debug, PartialEq, Eq, Structural)]
pub enum LoginReply {
    /// The client plays on the server.
    Proxy,
    /// The client is sent away until the server takes connections.
    SendAway,
    /// The server is started, and the client is sent away.
    Start,
}

/// Answers a join to a server that is up to `status`.
pub fn handle_login(status: ServerDeploymentStatus) -> (reply: LoginReply)
    ensures
        match status {
            ServerDeploymentStatus::Connectable => reply is Proxy,
            ServerDeploymentStatus::Starting | ServerDeploymentStatus::PodOk => reply is SendAway,
            ServerDeploymentStatus::Offline => reply is Start,
        },
{
    match status {
        ServerDeploymentStatus::Connectable => LoginReply::Proxy,
        ServerDeploymentStatus::PodOk | ServerDeploymentStatus::Starting => LoginReply::SendAway,
        ServerDeploymentStatus::Offline => LoginReply::Start,
    }
}

/// A setting is the value of its variable, and the default only where that is not set.
pub proof fn law_settings(variable: Option<String>, default: &str, value: String)
    requires
        call_ensures(setting, (variable, default), value),
    ensures
        variable matches Some(v) ==> value@ == v@,
        variable is None ==> value@ == default@,
{
}

/// A packet is read as a handshake exactly if it has the id 0, all the fields, and asks for the
/// status, a login or a transfer.
pub proof fn law_handshakes_are_read(packet: Packet, handshake: Result<Handshake, OpaqueError>)
    requires
        call_ensures(read_handshake, (packet,), handshake),
    ensures
        handshake is Ok <==> {
            &&& packet.id.int_value() == 0
            &&& handshake_fields(packet.data@) matches Some(fields)
            &&& 1 <= fields.next_state <= 3
        },
        handshake matches Ok(h) ==> handshake_fields(packet.data@) == Some(h.fields()) && h.all@
            == packet.all@,
{
}

/// A connection is for what its handshake asks for, unless it matches the filter.
pub proof fn law_connections_are_routed(
    handshake: Handshake,
    filtered: bool,
    route: Result<Route, OpaqueError>,
)
    requires
        call_ensures(process_connection, (handshake, filtered), route),
    ensures
        filtered <==> route == Ok::<Route, OpaqueError>(Route::Dropped),
        !filtered ==> {
            let asked = handshake.next_state.int_value();
            &&& asked == 1 <==> route == Ok::<Route, OpaqueError>(Route::Status(handshake))
            &&& asked == 2 <==> route == Ok::<Route, OpaqueError>(Route::Login(handshake))
            &&& asked != 1 && asked != 2 <==> route is Err
        },
{
}

/// A server is looked up by the address of the handshake without dots at its end and what follows a
/// null character, and by the port of the handshake in decimal.
pub proof fn law_lookups_of_handshakes(
    handshake: Handshake,
    packet: Packet,
    status: Result<ServerQuery, OpaqueError>,
    login: ServerQuery,
)
    requires
        call_ensures(status_lookup, (&handshake, &packet), status),
        call_ensures(login_lookup, (&handshake,), login),
    ensures
        status is Ok <==> packet.id.int_value() == 0,
        status matches Ok(q) ==> {
            &&& q.addr@ == crate::address::sanitized(handshake.server_address.value@)
            &&& q.port@ == decimal(handshake.server_port.value as int)
            &&& q.stage is Deployments
        },
        login.addr@ == crate::address::sanitized(handshake.server_address.value@),
        login.port@ == decimal(handshake.server_port.value as int),
        login.stage is Deployments,
{
    crate::address::law_trailing_dots_do_not_matter(handshake.server_address.value@);
}

/// What is told of a server that is not there.
pub proof fn law_missing_servers(
    handshake: Handshake,
    revision: &str,
    status: StatusStructNew,
)
    requires
        call_ensures(missing_status, (&handshake, revision), status),
    ensures
        status.version.name@.len() == 0,
        status.version.protocol == handshake.protocol_version.int_value(),
        status.players.max == 0,
        status.players.online == 0,
        status.description.text@ == "Could not find §kserver§r: §f§o"@
            + handshake.server_address.value@ + "§r\nMinecraft Ingress"@ + (
        " - §dTami§r with §d<3§r §8(rev: "@ + revision@ + ")§r"@),
{
}

/// A status is passed on to a connectable server, and told for any other: one player of one on a
/// server that starts or does not take a connection yet, and none of one on a server that is
/// offline.
pub proof fn law_statuses(
    handshake: Handshake,
    status: ServerDeploymentStatus,
    revision: &str,
    reply: StatusReply,
)
    requires
        call_ensures(handle_status, (&handshake, status, revision), reply),
    ensures
        reply is Proxy <==> status is Connectable,
        reply matches StatusReply::Answer(told) ==> {
            let bye = " - §dTami§r with §d<3§r §8(rev: "@ + revision@ + ")§r"@;
            &&& told.version.protocol == handshake.protocol_version.int_value()
            &&& told.players.max == 1
            &&& status is Starting || status is PodOk ==> told.players.online == 1
                && told.description.text@ == "§aServer is starting...§r please wait\n"@ + bye
            &&& status is Offline ==> told.players.online == 0 && told.description.text@
                == "Server is currently §onot§r running. \n§aJoin to start it!§r    "@ + bye
        },
{
}

/// A join is passed on to a connectable server, starts one that is offline, and else has to wait.
pub proof fn law_joins(status: ServerDeploymentStatus, reply: LoginReply)
    requires
        call_ensures(handle_login, (status,), reply),
    ensures
        reply is Proxy <==> status is Connectable,
        reply is Start <==> status is Offline,
        reply is SendAway <==> status is Starting || status is PodOk,
{
}

} // verus!
