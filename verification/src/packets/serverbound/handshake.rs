//! The first packet of a connection: whom the client wants to reach, and what for.
use vstd::prelude::*;
use vstd::utf8::encode_utf8;

use crate::packets::{
    copy_bytes, frame, framing, law_packet_round_trip, Framing, Packet, ProtocolState, SendPacket,
    MAX_PAYLOAD,
};
use crate::text::to_signed;
use crate::types::{
    encodes_var_int, law_u_short_round_trip, law_var_string_of_any_encoding,
    law_var_string_round_trip, lemma_scan_bounds, lemma_scan_prefix, u_short_bytes, u_short_value,
    var_int_bytes, var_int_scan, var_string_bytes, var_string_fits, var_string_scan, UShort, VarInt,
    VarIntScan, VarString,
};

verus! {

/// The fields of a handshake.
pub struct HandshakeFields {
    pub protocol_version: i32,
    pub protocol_version_bytes: Seq<u8>,
    pub server_address: Seq<char>,
    pub server_port: u16,
    pub next_state: i32,
    pub next_state_bytes: Seq<u8>,
}

/// The fields of the handshake that `data` holds at its start, or nothing where one is missing.
pub open spec fn handshake_fields(data: Seq<u8>) -> Option<HandshakeFields> {
    match var_int_scan(data) {
        VarIntScan::Value { value: protocol_version, used: n } => {
            let after_version = data.skip(n as int);
            match var_string_scan(after_version) {
                Some((server_address, m)) => {
                    let after_address = after_version.skip(m as int);
                    let after_port = after_address.skip(2);
                    match var_int_scan(after_port) {
                        VarIntScan::Value { value: next_state, used: k } => {
                            if after_address.len() < 2 {
                                None
                            } else {
                                Some(
                                    HandshakeFields {
                                        protocol_version,
                                        protocol_version_bytes: data.take(n as int),
                                        server_address,
                                        server_port: u_short_value(after_address),
                                        next_state,
                                        next_state_bytes: after_port.take(k as int),
                                    },
                                )
                            }
                        },
                        _ => None,
                    }
                },
                None => None,
            }
        },
        _ => None,
    }
}

/// The fields of the handshake that `data` holds at its start, or nothing where one is missing or
/// the client asks for a state that there is not.
pub open spec fn handshake_in(data: Seq<u8>) -> Option<HandshakeFields> {
    match handshake_fields(data) {
        Some(fields) => if ProtocolState::requested(fields.next_state) is Some {
            Some(fields)
        } else {
            None
        },
        None => None,
    }
}

/// The data of a handshake packet with the given fields.
pub open spec fn handshake_data(fields: HandshakeFields) -> Seq<u8> {
    fields.protocol_version_bytes + var_string_bytes(fields.server_address) + u_short_bytes(
        fields.server_port,
    ) + fields.next_state_bytes
}

/// id: 0x00
#[derive(Debug)]
pub struct Handshake {
    pub protocol_version: VarInt,
    pub server_address: VarString,
    pub server_port: UShort,
    pub next_state: VarInt,
    pub all: Vec<u8>,
}

impl Handshake {
    /// The fields of the handshake.
    pub open spec fn fields(self) -> HandshakeFields {
        HandshakeFields {
            protocol_version: self.protocol_version.int_value(),
            protocol_version_bytes: self.protocol_version.bytes(),
            server_address: self.server_address.value@,
            server_port: self.server_port.value,
            next_state: self.next_state.int_value(),
            next_state_bytes: self.next_state.bytes(),
        }
    }

    /// The handshake that the data of `packet` hold, with all bytes of the packet as they came.
    /// There is none where a field is missing, or the client asks for something else than the
    /// status, a login or a transfer.
    pub fn parse(packet: Packet) -> (handshake: Option<Handshake>)
        ensures
            match handshake_in(packet.data@) {
                Some(fields) => handshake matches Some(h) && h.fields() == fields && h.all@
                    == packet.all@,
                None => handshake is None,
            },
    {
        let mut reader = copy_bytes(&packet.data);
        let protocol_version = VarInt::parse(&mut reader)?;
        let server_address = VarString::parse(&mut reader)?;
        let server_port = UShort::parse(&mut reader)?;
        let next_state = VarInt::parse(&mut reader)?;
        let _state = ProtocolState::from_next_state(next_state.get_int())?;
        Some(
            Handshake {
                protocol_version,
                server_address,
                server_port,
                next_state,
                all: packet.all,
            },
        )
    }

    /// The address that the client wants to reach.
    pub fn get_server_address(&self) -> (address: String)
        ensures
            address@ == self.server_address.value@,
    {
        self.server_address.get_value()
    }

    /// The number of the state that the client asks for.
    pub fn get_next_state(&self) -> (state: i32)
        ensures
            state == self.next_state.int_value(),
    {
        self.next_state.get_int()
    }

    /// A handshake with the given fields, or nothing where the address is too long to be written
    /// down.
    pub fn create(
        protocol_version: VarInt,
        server_address: VarString,
        server_port: UShort,
        next_state: VarInt,
    ) -> (handshake: Option<Handshake>)
        ensures
            handshake is Some <==> var_string_fits(server_address.value@),
            handshake matches Some(h) ==> {
                &&& h.protocol_version == protocol_version
                &&& h.server_address == server_address
                &&& h.server_port == server_port
                &&& h.next_state == next_state
                &&& h.all@ == frame(var_int_bytes(0), handshake_data(h.fields()))
            },
    {
        let mut body = VarInt::from(0)?.get_data();
        let mut version = protocol_version.get_data();
        let mut address = server_address.get_data()?;
        let mut port = server_port.get_data();
        let mut state = next_state.get_data();
        body.append(&mut version);
        body.append(&mut address);
        body.append(&mut port);
        body.append(&mut state);
        let mut all = VarInt::from(to_signed(body.len() as u64))?.get_data();
        let handshake_body = Ghost(body@);
        all.append(&mut body);
        let handshake = Handshake {
            protocol_version,
            server_address,
            server_port,
            next_state,
            all,
        };
        assert(handshake_body@ =~= var_int_bytes(0) + handshake_data(handshake.fields()));
        Some(handshake)
    }
}

impl SendPacket for Handshake {
    open spec fn wire(&self) -> Seq<u8> {
        self.all@
    }

    fn wire_bytes(&self) -> (bytes: Vec<u8>) {
        copy_bytes(&self.all)
    }
}

/// Reading undoes writing: the data of a handshake, whatever follows them, are read as its fields.
pub proof fn law_handshake_round_trip(fields: HandshakeFields, rest: Seq<u8>)
    requires
        encodes_var_int(fields.protocol_version_bytes, fields.protocol_version),
        encodes_var_int(fields.next_state_bytes, fields.next_state),
        var_string_fits(fields.server_address),
    ensures
        handshake_fields(handshake_data(fields) + rest) == Some(fields),
{
    let version = fields.protocol_version_bytes;
    let address = var_string_bytes(fields.server_address);
    let port = u_short_bytes(fields.server_port);
    let state = fields.next_state_bytes;
    let data = handshake_data(fields) + rest;
    lemma_scan_bounds(version);
    lemma_scan_bounds(state);
    assert(data =~= version + (address + port + state + rest));
    lemma_scan_prefix(version, address + port + state + rest);
    assert(data.take(version.len() as int) =~= version);
    let after_version = data.skip(version.len() as int);
    assert(after_version =~= address + (port + state + rest));
    law_var_string_round_trip(fields.server_address, port + state + rest);
    let after_address = after_version.skip(address.len() as int);
    assert(after_address =~= port + (state + rest));
    law_u_short_round_trip(fields.server_port, state + rest);
    assert(after_address[0] == (port + (state + rest))[0]);
    assert(after_address[1] == (port + (state + rest))[1]);
    let after_port = after_address.skip(2);
    assert(after_port =~= state + rest);
    lemma_scan_prefix(state, rest);
    assert(after_port.take(state.len() as int) =~= state);
}

/// A handshake that is sent arrives: its frame, whatever follows it, is read as a packet, and the
/// data of that packet as the fields of the handshake, if it asks for a state that there is.
pub proof fn law_handshake_over_the_wire(fields: HandshakeFields, rest: Seq<u8>)
    requires
        encodes_var_int(fields.protocol_version_bytes, fields.protocol_version),
        encodes_var_int(fields.next_state_bytes, fields.next_state),
        var_string_fits(fields.server_address),
        handshake_data(fields).len() <= MAX_PAYLOAD,
    ensures
        framing(frame(var_int_bytes(0), handshake_data(fields)) + rest) matches Framing::Complete {
            id,
            data_start,
            end,
            ..
        } && {
            let s = frame(var_int_bytes(0), handshake_data(fields)) + rest;
            &&& id == 0
            &&& handshake_fields(s.subrange(data_start as int, end as int)) == Some(fields)
            &&& handshake_in(s.subrange(data_start as int, end as int)) == if (
            ProtocolState::requested(fields.next_state) is Some) {
                Some(fields)
            } else {
                None
            }
            &&& s.skip(end as int) == rest
        },
{
    law_packet_round_trip(0, handshake_data(fields), rest);
    law_handshake_round_trip(fields, seq![]);
    assert(handshake_data(fields) + seq![] =~= handshake_data(fields));
}

/// A handshake is read whatever bytes its numbers are written with, and whatever follows it: the
/// version, the length of the address, the address, the two bytes of the port, and the next state.
pub proof fn law_handshake_of_any_encoding(
    fields: HandshakeFields,
    address_head: Seq<u8>,
    high: u8,
    low: u8,
    rest: Seq<u8>,
)
    requires
        encodes_var_int(fields.protocol_version_bytes, fields.protocol_version),
        var_string_fits(fields.server_address),
        encodes_var_int(address_head, encode_utf8(fields.server_address).len() as i32),
        fields.server_port == high * 256 + low,
        encodes_var_int(fields.next_state_bytes, fields.next_state),
    ensures
        handshake_fields(
            fields.protocol_version_bytes + address_head + encode_utf8(fields.server_address)
                + seq![high, low] + fields.next_state_bytes + rest,
        ) == Some(fields),
{
    let version = fields.protocol_version_bytes;
    let address = address_head + encode_utf8(fields.server_address);
    let port = seq![high, low];
    let state = fields.next_state_bytes;
    let data = version + address_head + encode_utf8(fields.server_address) + port + state + rest;
    lemma_scan_bounds(version);
    lemma_scan_bounds(state);
    assert(data =~= version + (address + port + state + rest));
    lemma_scan_prefix(version, address + port + state + rest);
    assert(data.take(version.len() as int) =~= version);
    let after_version = data.skip(version.len() as int);
    assert(after_version =~= address_head + encode_utf8(fields.server_address) + (port + state
        + rest));
    law_var_string_of_any_encoding(address_head, fields.server_address, port + state + rest);
    let after_address = after_version.skip(address.len() as int);
    assert(after_address =~= port + (state + rest));
    assert(after_address[0] == high);
    assert(after_address[1] == low);
    let after_port = after_address.skip(2);
    assert(after_port =~= state + rest);
    lemma_scan_prefix(state, rest);
    assert(after_port.take(state.len() as int) =~= state);
}

/// A handshake that is read is there: where a field is missing, there is none.
pub proof fn law_handshake_is_not_made_up(data: Seq<u8>)
    ensures
        handshake_fields(data) matches Some(fields) ==> {
            let n = fields.protocol_version_bytes.len();
            &&& data.take(n as int) == fields.protocol_version_bytes
            &&& var_int_scan(data) == (VarIntScan::Value {
                value: fields.protocol_version,
                used: n as usize,
            })
            &&& var_string_scan(data.skip(n as int)) matches Some((address, m))
            &&& address == fields.server_address
            &&& data.len() >= n + m + 2
            &&& fields.server_port == data[(n + m) as int] * 256 + data[n + m + 1int]
            &&& var_int_scan(data.skip(n as int).skip(m as int).skip(2)) == (VarIntScan::Value {
                value: fields.next_state,
                used: fields.next_state_bytes.len() as usize,
            })
        },
{
    lemma_scan_bounds(data);
    if let VarIntScan::Value { value, used: n } = var_int_scan(data) {
        let after_version = data.skip(n as int);
        lemma_scan_bounds(after_version);
        if let Some((address, m)) = var_string_scan(after_version) {
            let after_address = after_version.skip(m as int);
            lemma_scan_bounds(after_address.skip(2));
        }
    }
}

/// The handshakes that are taken are those that ask for the status, a login or a transfer, with all
/// bytes of their packet.
pub proof fn law_taken_handshakes(packet: Packet, handshake: Option<Handshake>)
    requires
        call_ensures(Handshake::parse, (packet,), handshake),
    ensures
        handshake is Some <==> (handshake_fields(packet.data@) matches Some(fields) && 1
            <= fields.next_state <= 3),
        handshake matches Some(h) ==> handshake_fields(packet.data@) == Some(h.fields()) && h.all@
            == packet.all@,
{
}

/// The parts of a handshake are what its fields say, and what is given of it.
pub proof fn law_parts_of_a_handshake(handshake: Handshake, address: String, state: i32)
    requires
        call_ensures(Handshake::get_server_address, (&handshake,), address),
        call_ensures(Handshake::get_next_state, (&handshake,), state),
    ensures
        address@ == handshake.server_address.value@,
        state == handshake.next_state.int_value(),
        handshake.fields().protocol_version == handshake.protocol_version.int_value(),
        handshake.fields().protocol_version_bytes == handshake.protocol_version.bytes(),
        handshake.fields().server_address == handshake.server_address.value@,
        handshake.fields().server_port == handshake.server_port.value,
        handshake.fields().next_state == handshake.next_state.int_value(),
        handshake.fields().next_state_bytes == handshake.next_state.bytes(),
{
}

/// A handshake that is made has the parts that it was given, and is written as a packet with the id
/// 0 and its fields one after the other.
pub proof fn law_made_handshakes(
    protocol_version: VarInt,
    server_address: VarString,
    server_port: UShort,
    next_state: VarInt,
    made: Option<Handshake>,
)
    requires
        call_ensures(
            Handshake::create,
            (protocol_version, server_address, server_port, next_state),
            made,
        ),
    ensures
        made is Some <==> var_string_fits(server_address.value@),
        made matches Some(h) ==> {
            &&& h.protocol_version == protocol_version
            &&& h.server_address == server_address
            &&& h.server_port == server_port
            &&& h.next_state == next_state
            &&& h.all@ == frame(
                var_int_bytes(0),
                protocol_version.bytes() + var_string_bytes(server_address.value@)
                    + u_short_bytes(server_port.value) + next_state.bytes(),
            )
        },
{
}

} // verus!
