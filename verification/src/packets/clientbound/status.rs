//! Packets of the status state.
use vstd::prelude::*;

use crate::packets::{copy_bytes, frame, Packet, SendPacket};
use crate::types::{
    law_var_string_round_trip, var_int_bytes, var_string_bytes, var_string_fits, var_string_scan,
    VarString,
};

verus! {

/// The version that a server says it has.
#[derive(Debug)]
pub struct StatusVersion {
    pub name: String,
    pub protocol: i32,
}

/// How many players a server says it has.
#[derive(Debug)]
pub struct StatusPlayers {
    pub max: i32,
    pub online: i32,
}

/// The text that a server describes itself with.
#[derive(Debug)]
pub struct StatusDescription {
    pub text: String,
}

/// What a server says of itself.
#[derive(Debug)]
pub struct StatusStructNew {
    pub version: StatusVersion,
    pub players: StatusPlayers,
    pub description: StatusDescription,
}

impl StatusStructNew {
    /// A server that says nothing of itself.
    pub fn create() -> (status: StatusStructNew)
        ensures
            status.version.name@ == Seq::<char>::empty(),
            status.version.protocol == 0,
            status.players.max == 0,
            status.players.online == 0,
            status.description.text@ == Seq::<char>::empty(),
    {
        StatusStructNew {
            version: StatusVersion { name: String::new(), protocol: 0 },
            players: StatusPlayers { max: 0, online: 0 },
            description: StatusDescription { text: String::new() },
        }
    }
}

/// id: 0x00
#[derive(Debug)]
pub struct StatusResponse {
    pub json: VarString,
    pub all: Vec<u8>,
}

impl StatusResponse {
    /// The response that the data of `packet` hold, with all bytes of the packet as they came.
    pub fn parse(packet: Packet) -> (response: Option<StatusResponse>)
        ensures
            match var_string_scan(packet.data@) {
                Some((json, used)) => response matches Some(r) && r.json.value@ == json && r.all@
                    == packet.all@,
                None => response is None,
            },
    {
        let mut reader = copy_bytes(&packet.data);
        let json = VarString::parse(&mut reader)?;
        Some(StatusResponse { all: packet.all, json })
    }

    /// The JSON text of the response.
    pub fn get_json(&self) -> (json: String)
        ensures
            json@ == self.json.value@,
    {
        self.json.get_value()
    }

    /// A response with the JSON text `json`, or nothing where it is too long to be written down.
    pub fn set_json(json: String) -> (response: Option<StatusResponse>)
        ensures
            response is Some <==> var_string_fits(json@),
            response matches Some(r) ==> r.json.value@ == json@ && r.all@ == frame(
                var_int_bytes(0),
                var_string_bytes(json@),
            ),
    {
        let ghost text = json@;
        let data = VarString::from(json).move_data()?;
        proof {
            law_var_string_round_trip(text, seq![]);
            assert(var_string_bytes(text) + seq![] =~= var_string_bytes(text));
        }
        StatusResponse::parse(Packet::from_bytes(0, data)?)
    }
}

impl SendPacket for StatusResponse {
    open spec fn wire(&self) -> Seq<u8> {
        self.all@
    }

    fn wire_bytes(&self) -> (bytes: Vec<u8>) {
        copy_bytes(&self.all)
    }
}

} // verus!
