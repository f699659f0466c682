//! What the ingress does as, or for, a Minecraft server.
use vstd::prelude::*;

use crate::opaque_error::OpaqueError;
use crate::packets::clientbound::login::Disconnect;
use crate::packets::clientbound::status::StatusResponse;
use crate::packets::serverbound::handshake::Handshake;
use crate::packets::{copy_bytes, frame, Packet, SendPacket};
use crate::text::{decimal, decimal_text};
use crate::types::{var_int_bytes, var_string_bytes, var_string_fits};

verus! {

/// What a server in the cluster is up to.
#[derive(Clone, Copy, Debug, PartialEq, Eq, Structural)]
pub enum ServerDeploymentStatus {
    /// It runs, and a connection to it stands.
    Connectable,
    /// It is being started.
    Starting,
    /// Its pod runs, but takes no connection.
    PodOk,
    /// It does not run.
    Offline,
}

impl ServerDeploymentStatus {
    /// The name of the status.
    pub open spec fn name(self) -> Seq<char> {
        match self {
            ServerDeploymentStatus::Connectable => "Connectable"@,
            ServerDeploymentStatus::Starting => "Starting"@,
            ServerDeploymentStatus::PodOk => "PodOk"@,
            ServerDeploymentStatus::Offline => "Offline"@,
        }
    }

    /// The name of the status.
    pub fn to_text(&self) -> (name: String)
        ensures
            name@ == self.name(),
    {
        match self {
            ServerDeploymentStatus::Connectable => "Connectable".to_string(),
            ServerDeploymentStatus::Starting => "Starting".to_string(),
            ServerDeploymentStatus::PodOk => "PodOk".to_string(),
            ServerDeploymentStatus::Offline => "Offline".to_string(),
        }
    }
}

/// Answers a ping: the bytes to send back, which are those that came.
pub fn handle_ping(ping_packet: &Packet) -> (answer: Result<Vec<u8>, OpaqueError>)
    ensures
        match answer {
            Ok(bytes) => ping_packet.id.int_value() == 1 && bytes@ == ping_packet.all@,
            Err(e) => ping_packet.id.int_value() != 1 && e.context@
                == "Expected ping packet, got: "@ + decimal(ping_packet.id.int_value() as int),
        },
{
    if ping_packet.id.get_int() == 1 {
        Ok(copy_bytes(&ping_packet.all))
    } else {
        let mut text = "Expected ping packet, got: ".to_string();
        text.append(decimal_text(ping_packet.id.get_int() as i64).as_str());
        Err(OpaqueError::create(text.as_str()))
    }
}

/// Answers a status request: the response that carries the JSON text `json`.
pub fn complete_status_request(json: String) -> (response: Result<StatusResponse, OpaqueError>)
    ensures
        match response {
            Ok(r) => var_string_fits(json@) && r.json.value@ == json@ && r.all@ == frame(
                var_int_bytes(0),
                var_string_bytes(json@),
            ),
            Err(e) => !var_string_fits(json@) && e.context@ == "Failed to send status packet"@,
        },
{
    match StatusResponse::set_json(json) {
        Some(response) => Ok(response),
        None => Err(OpaqueError::create("Failed to send status packet")),
    }
}

/// Disconnects the client.
///
/// It works if the client is in the login state, and it has *already* and *only* sent the handshake
/// packet. The packet that the client sends next is read before this one is sent.
pub fn send_disconnect(reason: &str) -> (disconnect: Result<Disconnect, OpaqueError>)
    ensures
        match disconnect {
            Ok(d) => var_string_fits(reason@) && d.reason.value@ == reason@ && d.all@ == frame(
                var_int_bytes(0),
                var_string_bytes(reason@),
            ),
            Err(e) => !var_string_fits(reason@) && e.context@
                == "failed to *create* disconnect packet"@,
        },
{
    match Disconnect::set_reason(reason.to_string()) {
        Some(disconnect) => Ok(disconnect),
        None => Err(OpaqueError::create("failed to *create* disconnect packet")),
    }
}

/// The packets that a server is sent before the rest of the connection is passed on: those that the
/// client has sent already, each as it came.
pub fn proxy_status(handshake: &Handshake, status_request: &Packet) -> (packets: (
    Vec<u8>,
    Vec<u8>,
))
    ensures
        packets.0@ == handshake.all@,
        packets.1@ == status_request.all@,
{
    (handshake.wire_bytes(), status_request.wire_bytes())
}

/// A ping is sent back as it came, and no other packet is.
pub proof fn law_ping_is_echoed(ping: Packet, answer: Result<Vec<u8>, OpaqueError>)
    requires
        call_ensures(handle_ping, (&ping,), answer),
    ensures
        answer is Ok <==> ping.id.int_value() == 1,
        answer matches Ok(bytes) ==> bytes@ == ping.all@,
{
}

/// A status and a reason are sent as they are, in a packet with the id 0.
pub proof fn law_texts_are_sent(
    json: String,
    response: Result<StatusResponse, OpaqueError>,
    reason: &str,
    disconnect: Result<Disconnect, OpaqueError>,
)
    requires
        call_ensures(complete_status_request, (json,), response),
        call_ensures(send_disconnect, (reason,), disconnect),
    ensures
        response is Ok <==> var_string_fits(json@),
        response matches Ok(r) ==> r.all@ == frame(var_int_bytes(0), var_string_bytes(json@)),
        disconnect is Ok <==> var_string_fits(reason@),
        disconnect matches Ok(d) ==> d.all@ == frame(
            var_int_bytes(0),
            var_string_bytes(reason@),
        ),
{
}

/// What was received is passed on byte for byte, the handshake first.
pub proof fn law_received_packets_are_passed_on(
    handshake: Handshake,
    request: Packet,
    packets: (Vec<u8>, Vec<u8>),
)
    requires
        call_ensures(proxy_status, (&handshake, &request), packets),
    ensures
        packets.0@ == handshake.all@,
        packets.1@ == request.all@,
{
}

} // verus!
