//! Packets that a server sends.
pub mod login;
pub mod status;

use vstd::prelude::*;

use crate::packets::clientbound::login::Disconnect;
use crate::packets::clientbound::status::StatusResponse;
use crate::packets::{frame, framing, law_packet_round_trip, Framing, Packet, MAX_PAYLOAD};
use crate::types::{
    law_var_int_layout, law_var_string_round_trip, var_int_bytes, var_string_bytes, var_string_fits,
    var_string_scan,
};

verus! {

/// A disconnect or a status response that is sent arrives: its frame, whatever follows it, is read
/// as a packet, and the data of that packet as its text.
pub proof fn law_text_over_the_wire(text: Seq<char>, rest: Seq<u8>)
    requires
        var_string_fits(text),
        var_string_bytes(text).len() <= MAX_PAYLOAD,
    ensures
        framing(frame(var_int_bytes(0), var_string_bytes(text)) + rest) matches Framing::Complete {
            id,
            data_start,
            end,
            ..
        } && {
            let s = frame(var_int_bytes(0), var_string_bytes(text)) + rest;
            &&& id == 0
            &&& var_string_scan(s.subrange(data_start as int, end as int)) == Some(
                (text, var_string_bytes(text).len()),
            )
            &&& s.skip(end as int) == rest
        },
{
    law_packet_round_trip(0, var_string_bytes(text), rest);
    law_var_string_round_trip(text, seq![]);
    assert(var_string_bytes(text) + seq![] =~= var_string_bytes(text));
}

/// A disconnect and a status response hold the text that stands at the start of the data of their
/// packet, and all bytes of the packet; where there is no such text, there are none.
pub proof fn law_texts_are_read(
    packet: Packet,
    disconnect: Option<Disconnect>,
    response: Option<StatusResponse>,
)
    requires
        call_ensures(Disconnect::parse, (packet,), disconnect),
        call_ensures(StatusResponse::parse, (packet,), response),
    ensures
        disconnect is Some <==> var_string_scan(packet.data@) is Some,
        response is Some <==> var_string_scan(packet.data@) is Some,
        disconnect matches Some(d) ==> d.reason.value@ == var_string_scan(packet.data@)->Some_0.0
            && d.all@ == packet.all@,
        response matches Some(r) ==> r.json.value@ == var_string_scan(packet.data@)->Some_0.0
            && r.all@ == packet.all@,
{
}

/// A disconnect and a status response for a text are written as a packet with the id 0 and that
/// text.
pub proof fn law_texts_are_written(
    text: String,
    disconnect: Option<Disconnect>,
    response: Option<StatusResponse>,
)
    requires
        call_ensures(Disconnect::set_reason, (text,), disconnect),
        call_ensures(StatusResponse::set_json, (text,), response),
    ensures
        disconnect is Some <==> var_string_fits(text@),
        response is Some <==> var_string_fits(text@),
        disconnect matches Some(d) ==> d.reason.value@ == text@ && d.all@ == frame(
            seq![0u8],
            var_string_bytes(text@),
        ),
        response matches Some(r) ==> r.json.value@ == text@ && r.all@ == frame(
            seq![0u8],
            var_string_bytes(text@),
        ),
{
    law_var_int_layout(0);
}

} // verus!
