//! Packets: how they are framed, read and written.
pub mod clientbound;
pub mod reader;
pub mod serverbound;

use tracing_error::SpanTrace;
use vstd::prelude::*;

use crate::text::{byte_list, decimal, decimal_text, signed, to_signed};
use crate::types::{
    law_var_int_round_trip, lemma_scan_bounds, lemma_scan_prefix, var_int_bytes, var_int_scan,
    VarInt, VarIntScan, VAR_INT_MAX_BYTES,
};

verus! {

/// The id that no packet may have.
pub const WEIRD_ID: i32 = 122;

/// The most bytes that follow the id of a packet.
pub const MAX_PAYLOAD: usize = 65535;

/// Why a packet could not be read.
#[derive(Debug)]
pub enum ParseError {
    IDParseError,
    WeirdID,
    LengthIsTooBig(i32),
    DataIsZero,
    PacketLengthInvalid(i32),
    StreamReadError(String),
    BufferAllocationPanic(String),
}

impl ParseError {
    /// The rendering of the error.
    pub open spec fn message_text(self) -> Seq<char> {
        match self {
            ParseError::IDParseError => "IDParseError: could not parse packet id"@,
            ParseError::WeirdID => "WeirdID: weird packet id encountered: 122"@,
            ParseError::LengthIsTooBig(x) => {
                "LengthIsTooBig: packet length is too big; len="@ + decimal(x as int)
            },
            ParseError::DataIsZero => "DataIsZero: data portion of packet does not exist"@,
            ParseError::PacketLengthInvalid(x) => {
                "PacketLengthInvalid: packet lenght is smaller then packet len="@ + decimal(
                    x as int,
                )
            },
            ParseError::StreamReadError(text) => "StreamReadError: "@ + text@,
            ParseError::BufferAllocationPanic(text) => "BufferAllocationPanic: "@ + text@,
        }
    }

    /// Renders the error.
    pub fn message(&self) -> (text: String)
        ensures
            text@ == self.message_text(),
    {
        match self {
            ParseError::IDParseError => "IDParseError: could not parse packet id".to_string(),
            ParseError::WeirdID => "WeirdID: weird packet id encountered: 122".to_string(),
            ParseError::LengthIsTooBig(x) => {
                "LengthIsTooBig: packet length is too big; len=".to_string().concat(
                    decimal_text(*x as i64).as_str(),
                )
            },
            ParseError::DataIsZero => {
                "DataIsZero: data portion of packet does not exist".to_string()
            },
            ParseError::PacketLengthInvalid(x) => {
                "PacketLengthInvalid: packet lenght is smaller then packet len=".to_string().concat(
                    decimal_text(*x as i64).as_str(),
                )
            },
            ParseError::StreamReadError(text) => {
                "StreamReadError: ".to_string().concat(text.as_str())
            },
            ParseError::BufferAllocationPanic(text) => {
                "BufferAllocationPanic: ".to_string().concat(text.as_str())
            },
        }
    }
}

/// A parse error, with the trace of spans in which it arose.
#[derive(Debug)]
pub struct ParseErrorTrace {
    pub inner: ParseError,
    pub context: SpanTrace,
}

impl From<ParseError> for ParseErrorTrace {
    fn from(value: ParseError) -> (trace: Self)
        ensures
            trace.inner == value,
    {
        ParseErrorTrace { inner: value, context: SpanTrace::capture() }
    }
}

/// No two traces of one error need be the same: each holds its own capture.
impl vstd::std_specs::convert::FromSpecImpl<ParseError> for ParseErrorTrace {
    open spec fn obeys_from_spec() -> bool {
        false
    }

    open spec fn from_spec(value: ParseError) -> Self {
        arbitrary()
    }
}

/// The state that a connection is in.
#[derive(Copy, Clone, Debug, PartialEq, Eq, Structural)]
pub enum ProtocolState {
    Handshaking,
    Status,
    Login,
    Transfer,
    Configuration,
    Play,
    ShutDown,
}

impl ProtocolState {
    /// The name of the state.
    pub open spec fn name(self) -> Seq<char> {
        match self {
            ProtocolState::Handshaking => "Hanshake"@,
            ProtocolState::Status => "Status"@,
            ProtocolState::Login => "Login"@,
            ProtocolState::Configuration => "Configuration "@,
            ProtocolState::Play => "Play"@,
            ProtocolState::ShutDown => "Shutdown"@,
            ProtocolState::Transfer => "Transfer"@,
        }
    }

    /// The name of the state.
    pub fn to_string(&self) -> (name: String)
        ensures
            name@ == self.name(),
    {
        match self {
            ProtocolState::Handshaking => "Hanshake".to_string(),
            ProtocolState::Status => "Status".to_string(),
            ProtocolState::Login => "Login".to_string(),
            ProtocolState::Configuration => "Configuration ".to_string(),
            ProtocolState::Play => "Play".to_string(),
            ProtocolState::ShutDown => "Shutdown".to_string(),
            ProtocolState::Transfer => "Transfer".to_string(),
        }
    }

    /// The state that a handshake asks for by the number `next_state`.
    pub open spec fn requested(next_state: i32) -> Option<ProtocolState> {
        if next_state == 1 {
            Some(ProtocolState::Status)
        } else if next_state == 2 {
            Some(ProtocolState::Login)
        } else if next_state == 3 {
            Some(ProtocolState::Transfer)
        } else {
            None
        }
    }

    /// The state that a handshake asks for by the number `next_state`.
    pub fn from_next_state(next_state: i32) -> (state: Option<ProtocolState>)
        ensures
            state == Self::requested(next_state),
    {
        if next_state == 1 {
            Some(ProtocolState::Status)
        } else if next_state == 2 {
            Some(ProtocolState::Login)
        } else if next_state == 3 {
            Some(ProtocolState::Transfer)
        } else {
            None
        }
    }
}

/// A packet: its id, the length that it states, what follows the id, and all its bytes.
#[derive(Debug)]
pub struct Packet {
    pub id: VarInt,
    pub length: VarInt,
    pub data: Vec<u8>,
    pub all: Vec<u8>,
}

/// What is sent over a connection as it stands.
pub trait SendPacket {
    /// The bytes that are sent.
    spec fn wire(&self) -> Seq<u8>;

    /// The bytes to send.
    fn wire_bytes(&self) -> (bytes: Vec<u8>)
        ensures
            bytes@ == self.wire(),
    ;
}

impl SendPacket for Packet {
    open spec fn wire(&self) -> Seq<u8> {
        self.all@
    }

    fn wire_bytes(&self) -> (bytes: Vec<u8>) {
        copy_bytes(&self.all)
    }
}

pub(crate) fn copy_bytes(bytes: &Vec<u8>) -> (copy: Vec<u8>)
    ensures
        copy@ == bytes@,
{
    let copy = bytes.clone();
    assert(copy@ =~= bytes@);
    copy
}

/// The frame of a packet: its length, its id and its data. A length of more than 31 bits is cut
/// down to its low 32.
pub open spec fn frame(id: Seq<u8>, data: Seq<u8>) -> Seq<u8> {
    var_int_bytes(signed((id + data).len() as int)) + (id + data)
}

/// How many bytes follow the id in a packet of length `length` whose id takes `id_len` bytes. A
/// length that does not even cover the id counts as too big.
pub open spec fn payload_size(length: i32, id_len: nat) -> Result<nat, ParseError> {
    if length < id_len || length - id_len > MAX_PAYLOAD {
        Err(ParseError::LengthIsTooBig(length))
    } else {
        Ok((length - id_len) as nat)
    }
}

/// What the start of a stream holds, read as a packet.
pub enum Framing {
    /// The packet is not complete: `wanted` more bytes are to be read next.
    Pending { wanted: nat },
    /// The packet cannot be read.
    Rejected(ParseError),
    /// A packet of length `length`. Its id `id` starts at `id_start`, its data at `data_start`, and
    /// it ends at `end`.
    Complete { length: i32, id: i32, id_start: nat, data_start: nat, end: nat },
}

/// What the start of `s` holds, read as a packet.
pub open spec fn framing(s: Seq<u8>) -> Framing {
    match var_int_scan(s) {
        VarIntScan::Incomplete => Framing::Pending { wanted: 1 },
        VarIntScan::Overlong => Framing::Rejected(ParseError::IDParseError),
        VarIntScan::Value { value: length, used: length_len } => {
            match var_int_scan(s.skip(length_len as int)) {
                VarIntScan::Incomplete => Framing::Pending { wanted: 1 },
                VarIntScan::Overlong => Framing::Rejected(ParseError::IDParseError),
                VarIntScan::Value { value: id, used: id_len } => {
                    if id == WEIRD_ID {
                        Framing::Rejected(ParseError::WeirdID)
                    } else {
                        match payload_size(length, id_len as nat) {
                            Err(error) => Framing::Rejected(error),
                            Ok(size) => {
                                let data_start = (length_len + id_len) as nat;
                                if s.len() < data_start + size {
                                    Framing::Pending {
                                        wanted: (data_start + size - s.len()) as nat,
                                    }
                                } else {
                                    Framing::Complete {
                                        length,
                                        id,
                                        id_start: length_len as nat,
                                        data_start,
                                        end: data_start + size,
                                    }
                                }
                            },
                        }
                    }
                },
            }
        },
    }
}

/// How many bytes are taken from the start of `s` until it is clear what it holds, read as a
/// packet: a packet is taken whole; one that cannot be read is given up after the number that shows
/// it; and one that is not complete is waited for until nothing is left.
pub open spec fn taken(s: Seq<u8>) -> nat {
    match var_int_scan(s) {
        VarIntScan::Incomplete => s.len(),
        VarIntScan::Overlong => VAR_INT_MAX_BYTES as nat,
        VarIntScan::Value { used: length_len, .. } => match var_int_scan(
            s.skip(length_len as int),
        ) {
            VarIntScan::Incomplete => s.len(),
            VarIntScan::Overlong => (length_len + VAR_INT_MAX_BYTES) as nat,
            VarIntScan::Value { used: id_len, .. } => match framing(s) {
                Framing::Complete { end, .. } => end,
                Framing::Rejected(_) => (length_len + id_len) as nat,
                Framing::Pending { .. } => s.len(),
            },
        },
    }
}

/// The packet that `s` holds at its start.
pub open spec fn holds_packet(s: Seq<u8>, p: Packet) -> bool {
    framing(s) matches Framing::Complete { length, id, id_start, data_start, end } && {
        &&& p.length.int_value() == length
        &&& p.length.bytes() == s.take(id_start as int)
        &&& p.id.int_value() == id
        &&& p.id.bytes() == s.subrange(id_start as int, data_start as int)
        &&& p.data@ == s.subrange(data_start as int, end as int)
        &&& p.all@ == s.take(end as int)
    }
}

/// The text of the error of a read that failed after the head of a packet.
pub open spec fn read_error_text(length: i32, length_bytes: Seq<u8>, error: Seq<char>) -> Seq<
    char,
> {
    "length="@ + decimal(length as int) + "; data="@ + byte_list(length_bytes) + "; error="@ + error
        + "; "@
}

/// The text of the error of a buffer that could not be had.
pub open spec fn allocation_error_text(
    id_len: nat,
    length: i32,
    size: nat,
    error: Seq<char>,
) -> Seq<char> {
    "panic while allocating with vec![] macro len_int="@ + decimal(id_len as int) + " usize="@
        + decimal(length as int) + " len_data="@ + decimal(size as int) + " error="@ + error
}

/// What has been made out at the start of a stream stays so, whatever follows.
pub proof fn law_framing_prefix(s: Seq<u8>, rest: Seq<u8>)
    ensures
        framing(s) !is Pending ==> framing(s + rest) == framing(s),
{
    lemma_scan_prefix(s, rest);
    lemma_scan_bounds(s);
    if let VarIntScan::Value { value: length, used: length_len } = var_int_scan(s) {
        let tail = s.skip(length_len as int);
        lemma_scan_prefix(tail, rest);
        assert((s + rest).skip(length_len as int) =~= tail + rest);
    }
}

/// Reading undoes writing: the frame of a packet, whatever follows it, is read as that packet, and
/// no byte of what follows is used.
pub proof fn law_packet_round_trip(id: i32, data: Seq<u8>, rest: Seq<u8>)
    requires
        id != WEIRD_ID,
        data.len() <= MAX_PAYLOAD,
    ensures
        framing(frame(var_int_bytes(id), data) + rest) matches Framing::Complete {
            length,
            id: read_id,
            id_start,
            data_start,
            end,
        } && {
            let s = frame(var_int_bytes(id), data) + rest;
            &&& read_id == id
            &&& length == var_int_bytes(id).len() + data.len()
            &&& s.subrange(id_start as int, data_start as int) == var_int_bytes(id)
            &&& s.subrange(data_start as int, end as int) == data
            &&& s.take(end as int) == frame(var_int_bytes(id), data)
            &&& s.skip(end as int) == rest
        },
{
    let id_bytes = var_int_bytes(id);
    let body = id_bytes + data;
    let head = var_int_bytes(signed(body.len() as int));
    let s = frame(id_bytes, data) + rest;
    lemma_frame_head(id, data, rest);
    let data_start = (head.len() + id_bytes.len()) as int;
    assert(s.subrange(head.len() as int, data_start) =~= id_bytes);
    assert(s.subrange(data_start, data_start + data.len()) =~= data);
    assert(s.take(data_start + data.len()) =~= frame(id_bytes, data));
    assert(s.skip(data_start + data.len()) =~= rest);
}

/// A packet with the id that no packet may have is refused, whatever it holds.
pub proof fn law_weird_id_refused(data: Seq<u8>, rest: Seq<u8>)
    ensures
        framing(frame(var_int_bytes(WEIRD_ID), data) + rest) == Framing::Rejected(
            ParseError::WeirdID,
        ),
{
    lemma_frame_head(WEIRD_ID, data, rest);
}

/// A packet that holds too much is refused with the length that it states.
pub proof fn law_oversized_refused(id: i32, data: Seq<u8>, rest: Seq<u8>)
    requires
        id != WEIRD_ID,
        MAX_PAYLOAD < data.len(),
        var_int_bytes(id).len() + data.len() <= i32::MAX,
    ensures
        framing(frame(var_int_bytes(id), data) + rest) == Framing::Rejected(
            ParseError::LengthIsTooBig((var_int_bytes(id).len() + data.len()) as i32),
        ),
{
    lemma_frame_head(id, data, rest);
}

proof fn lemma_frame_head(id: i32, data: Seq<u8>, rest: Seq<u8>)
    ensures
        ({
            let s = frame(var_int_bytes(id), data) + rest;
            let length = signed((var_int_bytes(id).len() + data.len()) as int);
            let head = var_int_bytes(length).len();
            &&& var_int_scan(s) == (VarIntScan::Value { value: length, used: head as usize })
            &&& var_int_scan(s.skip(head as int)) == (VarIntScan::Value {
                value: id,
                used: var_int_bytes(id).len() as usize,
            })
            &&& 1 <= head <= 5
            &&& 1 <= var_int_bytes(id).len() <= 5
        }),
{
    let id_bytes = var_int_bytes(id);
    let body = id_bytes + data;
    let head = var_int_bytes(signed(body.len() as int));
    let s = frame(id_bytes, data) + rest;
    law_var_int_round_trip(signed(body.len() as int), body + rest);
    law_var_int_round_trip(id, data + rest);
    assert(s =~= head + (body + rest));
    assert(s.skip(head.len() as int) =~= id_bytes + (data + rest));
}

impl Packet {
    /// The packet with the id `id` and the data `data`.
    pub fn from_bytes(id: i32, data: Vec<u8>) -> (packet: Option<Packet>)
        ensures
            packet matches Some(p) && {
                &&& p.id.int_value() == id
                &&& p.id.bytes() == var_int_bytes(id)
                &&& p.length.int_value() == signed((var_int_bytes(id).len() + data@.len()) as int)
                &&& p.length.bytes() == var_int_bytes(p.length.int_value())
                &&& p.data@ == data@
                &&& p.all@ == frame(var_int_bytes(id), data@)
            },
    {
        let id = VarInt::from(id)?;
        let mut body = id.get_data();
        let mut payload = copy_bytes(&data);
        body.append(&mut payload);
        let length = VarInt::from(to_signed(body.len() as u64))?;
        let mut all = length.get_data();
        all.append(&mut body);
        Some(Packet { id, length, data, all })
    }

    /// A broken packet with the id `id` and the data `data`: the data come once more after the end
    /// of its frame.
    pub fn new(id: i32, data: Vec<u8>) -> (packet: Option<Packet>)
        ensures
            packet matches Some(p) && {
                &&& p.id.int_value() == id
                &&& p.id.bytes() == var_int_bytes(id)
                &&& p.length.int_value() == signed((var_int_bytes(id).len() + data@.len()) as int)
                &&& p.length.bytes() == var_int_bytes(p.length.int_value())
                &&& p.data@ == data@
                &&& p.all@ == frame(var_int_bytes(id), data@) + data@
            },
    {
        let mut packet = Packet::from_bytes(id, data)?;
        let mut again = copy_bytes(&packet.data);
        packet.all.append(&mut again);
        Some(packet)
    }

    /// The frame of the packet, made from its id and its data.
    pub fn all(&self) -> (bytes: Option<Vec<u8>>)
        ensures
            bytes matches Some(b) && b@ == frame(self.id.bytes(), self.data@),
    {
        let mut body = self.id.get_data();
        let mut payload = copy_bytes(&self.data);
        body.append(&mut payload);
        let mut all = VarInt::from(to_signed(body.len() as u64))?.get_data();
        all.append(&mut body);
        Some(all)
    }
}

/// Checks how many bytes follow the id.
pub(crate) fn check_payload_size(length: i32, id_len: usize) -> (size: Result<usize, ParseError>)
    requires
        id_len <= 5,
    ensures
        match payload_size(length, id_len as nat) {
            Ok(n) => size == Ok::<usize, ParseError>(n as usize) && n <= MAX_PAYLOAD,
            Err(e) => size == Err::<usize, ParseError>(e),
        },
{
    let size: i64 = length as i64 - id_len as i64;
    if size < 0 || size > MAX_PAYLOAD as i64 {
        return Err(ParseError::LengthIsTooBig(length));
    }
    Ok(size as usize)
}

/// What is written for a packet: the number of bytes of its id and its data, its id, and its data.
pub proof fn law_packet_layout(
    id: i32,
    data: Vec<u8>,
    packet: Option<Packet>,
    broken: Option<Packet>,
)
    requires
        call_ensures(Packet::from_bytes, (id, data), packet),
        call_ensures(Packet::new, (id, data), broken),
    ensures
        packet is Some,
        broken is Some,
        ({
            let p = packet->Some_0;
            let b = broken->Some_0;
            let body = var_int_bytes(id) + data@;
            &&& p.id.int_value() == id
            &&& p.data@ == data@
            &&& body.len() <= i32::MAX ==> p.all@ == var_int_bytes(body.len() as i32) + body
            &&& body.len() <= i32::MAX ==> p.length.int_value() == body.len()
            &&& b.id.int_value() == id
            &&& b.data@ == data@
            &&& b.all@ == p.all@ + data@
        }),
{
}

/// What is written anew for a packet: its frame, with the id as it came.
pub proof fn law_packet_is_written_anew(packet: Packet, bytes: Option<Vec<u8>>, sent: Vec<u8>)
    requires
        call_ensures(Packet::all, (&packet,), bytes),
        call_ensures(<Packet as SendPacket>::wire_bytes, (&packet,), sent),
    ensures
        bytes is Some,
        packet.id.bytes().len() + packet.data@.len() <= i32::MAX ==> bytes->Some_0@
            == var_int_bytes((packet.id.bytes().len() + packet.data@.len()) as i32)
            + packet.id.bytes() + packet.data@,
        sent@ == packet.all@,
{
    let body = packet.id.bytes() + packet.data@;
    if body.len() <= i32::MAX {
        assert(bytes->Some_0@ =~= var_int_bytes(body.len() as i32) + packet.id.bytes()
            + packet.data@);
    }
}

/// The states that can be asked for, by their numbers, and no others.
pub proof fn law_requested_states(next_state: i32, state: Option<ProtocolState>)
    requires
        call_ensures(ProtocolState::from_next_state, (next_state,), state),
    ensures
        state == ProtocolState::requested(next_state),
        state is Some <==> 1 <= next_state <= 3,
        state == Some(ProtocolState::Status) <==> next_state == 1,
        state == Some(ProtocolState::Login) <==> next_state == 2,
        state == Some(ProtocolState::Transfer) <==> next_state == 3,
{
}

/// The messages of the errors.
pub proof fn law_messages(error: ParseError, text: String)
    requires
        call_ensures(ParseError::message, (&error,), text),
    ensures
        text@ == match error {
            ParseError::IDParseError => "IDParseError: could not parse packet id"@,
            ParseError::WeirdID => "WeirdID: weird packet id encountered: 122"@,
            ParseError::LengthIsTooBig(x) => {
                "LengthIsTooBig: packet length is too big; len="@ + decimal(x as int)
            },
            ParseError::DataIsZero => "DataIsZero: data portion of packet does not exist"@,
            ParseError::PacketLengthInvalid(x) => {
                "PacketLengthInvalid: packet lenght is smaller then packet len="@ + decimal(
                    x as int,
                )
            },
            ParseError::StreamReadError(reason) => "StreamReadError: "@ + reason@,
            ParseError::BufferAllocationPanic(reason) => "BufferAllocationPanic: "@ + reason@,
        },
{
}

} // verus!
