//! Packets of the login state.
use vstd::prelude::*;

use crate::packets::{copy_bytes, frame, Packet, SendPacket};
use crate::types::{
    law_var_string_round_trip, var_int_bytes, var_string_bytes, var_string_fits, var_string_scan,
    VarString,
};

verus! {

/// id: 0x00
#[derive(Debug)]
pub struct Disconnect {
    pub reason: VarString,
    pub all: Vec<u8>,
}

impl Disconnect {
    /// The disconnect that the data of `packet` hold, with all bytes of the packet as they came.
    pub fn parse(packet: Packet) -> (disconnect: Option<Disconnect>)
        ensures
            match var_string_scan(packet.data@) {
                Some((reason, used)) => disconnect matches Some(d) && d.reason.value@ == reason
                    && d.all@ == packet.all@,
                None => disconnect is None,
            },
    {
        let mut reader = copy_bytes(&packet.data);
        let reason = VarString::parse(&mut reader)?;
        Some(Disconnect { all: packet.all, reason })
    }

    /// The reason.
    pub fn get_string(&self) -> (reason: String)
        ensures
            reason@ == self.reason.value@,
    {
        self.reason.get_value()
    }

    /// A disconnect for `reason`, or nothing where the reason is too long to be written down.
    pub fn set_reason(reason: String) -> (disconnect: Option<Disconnect>)
        ensures
            disconnect is Some <==> var_string_fits(reason@),
            disconnect matches Some(d) ==> d.reason.value@ == reason@ && d.all@ == frame(
                var_int_bytes(0),
                var_string_bytes(reason@),
            ),
    {
        let ghost text = reason@;
        let data = VarString::from(reason).move_data()?;
        proof {
            law_var_string_round_trip(text, seq![]);
            assert(var_string_bytes(text) + seq![] =~= var_string_bytes(text));
        }
        Disconnect::parse(Packet::from_bytes(0, data)?)
    }

    /// All bytes of the packet.
    pub fn get_all(&self) -> (all: Vec<u8>)
        ensures
            all@ == self.all@,
    {
        copy_bytes(&self.all)
    }
}

impl SendPacket for Disconnect {
    open spec fn wire(&self) -> Seq<u8> {
        self.all@
    }

    fn wire_bytes(&self) -> (bytes: Vec<u8>) {
        copy_bytes(&self.all)
    }
}

} // verus!
