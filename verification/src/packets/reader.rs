//! Reading packets, from bytes at hand or piece by piece from a stream.
use vstd::prelude::*;
use vstd::slice::{slice_subrange, slice_to_vec};

use crate::packets::{
    allocation_error_text, check_payload_size, framing, holds_packet, payload_size,
    read_error_text, taken, Framing, Packet, ParseError, ParseErrorTrace, WEIRD_ID,
};
use crate::text::{byte_list, byte_list_text, decimal, decimal_text};
use crate::types::{
    encodes_var_int, lemma_scan_bounds, lemma_scan_own_bytes, lemma_scan_prefix, scan_var_int,
    var_int_scan, VarInt, VarIntScan, VAR_INT_MAX_BYTES,
};

verus! {

/// The reason why a read of bytes at hand fails: there are not enough of them.
pub const EARLY_EOF: &'static str = "Custom { kind: UnexpectedEof, error: \"early eof\" }";

/// The head of a packet: its length, and how many bytes its length and its id take.
pub struct Head {
    pub length: i32,
    pub length_len: nat,
    pub id_len: nat,
}

/// The head of the packet at the start of `s`, where both its numbers are complete.
pub open spec fn head(s: Seq<u8>) -> Option<Head> {
    match var_int_scan(s) {
        VarIntScan::Value { value: length, used: length_len } => match var_int_scan(
            s.skip(length_len as int),
        ) {
            VarIntScan::Value { value: id, used: id_len } => Some(
                Head { length, length_len: length_len as nat, id_len: id_len as nat },
            ),
            _ => None,
        },
        _ => None,
    }
}

/// The error of a read that failed with `reason` after `s` had been read.
pub open spec fn is_read_error(s: Seq<u8>, reason: Seq<char>, error: ParseError) -> bool {
    match head(s) {
        Some(h) => error matches ParseError::StreamReadError(text) && text@ == read_error_text(
            h.length,
            s.take(h.length_len as int),
            reason,
        ),
        None => error == ParseError::IDParseError,
    }
}

/// The error of a buffer that could not be had, for `reason`, after `s` had been read.
pub open spec fn is_allocation_error(s: Seq<u8>, reason: Seq<char>, error: ParseError) -> bool {
    match head(s) {
        Some(h) => error matches ParseError::BufferAllocationPanic(text) && text@
            == allocation_error_text(
            h.id_len,
            h.length,
            payload_size(h.length, h.id_len)->Ok_0,
            reason,
        ),
        None => error == ParseError::IDParseError,
    }
}

/// What has come of reading a packet so far.
enum PacketScan {
    Pending { wanted: usize },
    Rejected { error: ParseError, taken: usize },
    Complete(Packet),
}

/// A slice of `s` as a vector.
fn slice_bytes(s: &[u8], from: usize, to: usize) -> (bytes: Vec<u8>)
    requires
        from <= to <= s@.len(),
    ensures
        bytes@ == s@.subrange(from as int, to as int),
{
    slice_to_vec(slice_subrange(s, from, to))
}

/// Reads the start of `s` as a packet.
fn scan_packet(s: &[u8]) -> (scan: PacketScan)
    ensures
        match framing(s@) {
            Framing::Pending { wanted } => scan == (PacketScan::Pending { wanted: wanted as usize })
                && 1 <= wanted <= usize::MAX,
            Framing::Rejected(error) => scan == (PacketScan::Rejected {
                error,
                taken: taken(s@) as usize,
            }) && taken(s@) <= s@.len(),
            Framing::Complete { end, .. } => scan matches PacketScan::Complete(p) && holds_packet(
                s@,
                p,
            ) && end <= s@.len(),
        },
{
    proof {
        lemma_scan_bounds(s@);
    }
    let (length, length_len) = match scan_var_int(s) {
        VarIntScan::Incomplete => return PacketScan::Pending { wanted: 1 },
        VarIntScan::Overlong => {
            return PacketScan::Rejected {
                error: ParseError::IDParseError,
                taken: VAR_INT_MAX_BYTES,
            }
        },
        VarIntScan::Value { value, used } => (value, used),
    };
    let tail = slice_subrange(s, length_len, s.len());
    assert(tail@ =~= s@.skip(length_len as int));
    proof {
        lemma_scan_bounds(tail@);
    }
    let (id, id_len) = match scan_var_int(tail) {
        VarIntScan::Incomplete => return PacketScan::Pending { wanted: 1 },
        VarIntScan::Overlong => {
            return PacketScan::Rejected {
                error: ParseError::IDParseError,
                taken: length_len + VAR_INT_MAX_BYTES,
            }
        },
        VarIntScan::Value { value, used } => (value, used),
    };
    let data_start: usize = length_len + id_len;
    if id == WEIRD_ID {
        return PacketScan::Rejected { error: ParseError::WeirdID, taken: data_start };
    }
    let size: usize = match check_payload_size(length, id_len) {
        Err(error) => return PacketScan::Rejected { error, taken: data_start },
        Ok(size) => size,
    };
    let end: usize = data_start + size;
    if s.len() < end {
        return PacketScan::Pending { wanted: end - s.len() };
    }
    proof {
        lemma_scan_own_bytes(s@);
        lemma_scan_own_bytes(tail@);
        assert(s@.subrange(0, length_len as int) =~= s@.take(length_len as int));
        assert(s@.subrange(length_len as int, data_start as int) =~= tail@.take(id_len as int));
        assert(s@.subrange(0, end as int) =~= s@.take(end as int));
    }
    PacketScan::Complete(
        Packet {
            length: VarInt::held(length, slice_bytes(s, 0, length_len)),
            id: VarInt::held(id, slice_bytes(s, length_len, data_start)),
            data: slice_bytes(s, data_start, end),
            all: slice_bytes(s, 0, end),
        },
    )
}

/// The error of a read that failed for `reason` after `s` had been read.
fn read_error(s: &[u8], reason: &str) -> (error: ParseError)
    ensures
        is_read_error(s@, reason@, error),
{
    proof {
        lemma_scan_bounds(s@);
    }
    let (length, length_len) = match scan_var_int(s) {
        VarIntScan::Value { value, used } => (value, used),
        _ => return ParseError::IDParseError,
    };
    let tail = slice_subrange(s, length_len, s.len());
    assert(tail@ =~= s@.skip(length_len as int));
    match scan_var_int(tail) {
        VarIntScan::Value { .. } => {},
        _ => return ParseError::IDParseError,
    }
    let length_bytes = slice_bytes(s, 0, length_len);
    assert(length_bytes@ =~= s@.take(length_len as int));
    let mut text = "length=".to_string();
    text.append(decimal_text(length as i64).as_str());
    text.append("; data=");
    text.append(byte_list_text(&length_bytes).as_str());
    text.append("; error=");
    text.append(reason);
    text.append("; ");
    ParseError::StreamReadError(text)
}

impl Packet {
    /// Takes a packet from the front of `stream`. Where it holds none, what was read until that was
    /// clear is taken all the same.
    pub fn parse(stream: &mut Vec<u8>) -> (packet: Result<Packet, ParseErrorTrace>)
        ensures
            match framing(old(stream)@) {
                Framing::Complete { end, .. } => {
                    &&& packet matches Ok(p)
                    &&& holds_packet(old(stream)@, p)
                    &&& final(stream)@ == old(stream)@.skip(end as int)
                },
                Framing::Rejected(error) => {
                    &&& packet matches Err(trace)
                    &&& trace.inner == error
                },
                Framing::Pending { .. } => {
                    &&& packet matches Err(trace)
                    &&& is_read_error(old(stream)@, EARLY_EOF@, trace.inner)
                    &&& final(stream)@ == Seq::<u8>::empty()
                },
            },
            taken(old(stream)@) <= old(stream)@.len(),
            final(stream)@ == old(stream)@.skip(taken(old(stream)@) as int),
    {
        match scan_packet(stream.as_slice()) {
            PacketScan::Complete(packet) => {
                let rest = stream.split_off(packet.all.len());
                *stream = rest;
                Ok(packet)
            },
            PacketScan::Rejected { error, taken } => {
                let rest = stream.split_off(taken);
                *stream = rest;
                Err(ParseErrorTrace::from(error))
            },
            PacketScan::Pending { .. } => {
                let error = read_error(stream.as_slice(), EARLY_EOF);
                stream.clear();
                Err(ParseErrorTrace::from(error))
            },
        }
    }
}

/// What comes of a piece that was read.
pub enum PacketStep {
    /// The packet is not complete.
    More(PacketReader),
    /// The packet is complete.
    Done(Packet),
    /// The packet cannot be read.
    Failed(ParseError),
}

/// A packet that is being read from a stream, piece by piece. No byte after its end is read.
pub struct PacketReader {
    seen: Vec<u8>,
    wanted: usize,
}

impl PacketReader {
    /// The bytes that have been read.
    pub closed spec fn consumed(self) -> Seq<u8> {
        self.seen@
    }

    /// How many bytes are to be read next.
    pub closed spec fn wants(self) -> nat {
        self.wanted as nat
    }

    #[verifier::type_invariant]
    spec fn well_formed(self) -> bool {
        framing(self.seen@) == (Framing::Pending { wanted: self.wanted as nat })
    }

    /// A packet of which nothing has been read.
    pub fn start() -> (reader: PacketReader)
        ensures
            reader.consumed() == Seq::<u8>::empty(),
            reader.wants() == 1,
    {
        PacketReader { seen: Vec::new(), wanted: 1 }
    }

    /// How many bytes are to be read next.
    pub fn wanted(&self) -> (n: usize)
        ensures
            n == self.wants(),
            framing(self.consumed()) == (Framing::Pending { wanted: self.wants() }),
    {
        proof {
            use_type_invariant(self);
        }
        self.wanted
    }

    /// Goes on with the bytes that were asked for.
    pub fn feed(self, bytes: Vec<u8>) -> (step: PacketStep)
        requires
            bytes@.len() == self.wants(),
        ensures
            match framing(self.consumed() + bytes@) {
                Framing::Pending { wanted } => {
                    &&& step matches PacketStep::More(next)
                    &&& next.consumed() == self.consumed() + bytes@
                    &&& next.wants() == wanted
                },
                Framing::Rejected(error) => {
                    &&& step == PacketStep::Failed(error)
                    &&& taken(self.consumed() + bytes@) == (self.consumed() + bytes@).len()
                },
                Framing::Complete { end, .. } => {
                    &&& step matches PacketStep::Done(p)
                    &&& holds_packet(self.consumed() + bytes@, p)
                    &&& end == (self.consumed() + bytes@).len()
                },
            },
    {
        proof {
            use_type_invariant(&self);
            law_no_byte_too_many(self.seen@, bytes@);
        }
        let mut seen = self.seen;
        let mut piece = bytes;
        seen.append(&mut piece);
        match scan_packet(seen.as_slice()) {
            PacketScan::Pending { wanted } => PacketStep::More(PacketReader { seen, wanted }),
            PacketScan::Rejected { error, .. } => PacketStep::Failed(error),
            PacketScan::Complete(packet) => PacketStep::Done(packet),
        }
    }

    /// The error of a read that failed for `reason`.
    pub fn read_failed(&self, reason: &str) -> (error: ParseError)
        ensures
            is_read_error(self.consumed(), reason@, error),
    {
        read_error(self.seen.as_slice(), reason)
    }

    /// The error of a buffer for the next read that could not be had for `reason`.
    pub fn allocation_failed(&self, reason: &str) -> (error: ParseError)
        ensures
            is_allocation_error(self.consumed(), reason@, error),
    {
        proof {
            use_type_invariant(self);
            lemma_scan_bounds(self.seen@);
        }
        let s = self.seen.as_slice();
        let (length, length_len) = match scan_var_int(s) {
            VarIntScan::Value { value, used } => (value, used),
            _ => return ParseError::IDParseError,
        };
        let tail = slice_subrange(s, length_len, s.len());
        assert(tail@ =~= s@.skip(length_len as int));
        proof {
            lemma_scan_bounds(tail@);
        }
        let id_len: usize = match scan_var_int(tail) {
            VarIntScan::Value { used, .. } => used,
            _ => return ParseError::IDParseError,
        };
        let size: i64 = length as i64 - id_len as i64;
        let mut text = "panic while allocating with vec![] macro len_int=".to_string();
        text.append(decimal_text(id_len as i64).as_str());
        text.append(" usize=");
        text.append(decimal_text(length as i64).as_str());
        text.append(" len_data=");
        text.append(decimal_text(size).as_str());
        text.append(" error=");
        text.append(reason);
        ParseError::BufferAllocationPanic(text)
    }
}

/// Once the wanted bytes have come and it is clear what a stream holds, all that came is taken: a
/// packet that is complete ends with the last of them.
pub proof fn law_no_byte_too_many(s: Seq<u8>, piece: Seq<u8>)
    requires
        framing(s) == (Framing::Pending { wanted: piece.len() }),
    ensures
        framing(s + piece) !is Pending ==> taken(s + piece) == (s + piece).len(),
        framing(s + piece) matches Framing::Complete { end, .. } ==> end == (s + piece).len(),
{
    let t = s + piece;
    if framing(t) !is Pending {
        assert(t.take(s.len() as int) =~= s);
        law_never_reads_too_far(t, s.len(), piece.len());
    }
}

/// Nothing is read that does not matter: as long as it is not clear what a stream holds, the bytes
/// that are wanted next are among those that are taken.
pub proof fn law_never_reads_too_far(s: Seq<u8>, read: nat, wanted: nat)
    requires
        read <= s.len(),
        framing(s) !is Pending,
        framing(s.take(read as int)) == (Framing::Pending { wanted }),
    ensures
        read + wanted <= taken(s) <= s.len(),
        framing(s) matches Framing::Complete { end, .. } ==> taken(s) == end,
{
    let t = s.take(read as int);
    lemma_scan_bounds(s);
    lemma_scan_of_start(s, read);
    if let VarIntScan::Value { value: length, used: length_len } = var_int_scan(s) {
        let tail = s.skip(length_len as int);
        lemma_scan_bounds(tail);
        if read >= length_len {
            assert(t.skip(length_len as int) =~= tail.take(read - length_len));
            lemma_scan_of_start(tail, (read - length_len) as nat);
        }
    }
}

/// Only what is taken matters: the bytes that are taken from a stream are read as the stream is,
/// and what follows them is left for the next packet.
pub proof fn law_taken_bytes_decide(s: Seq<u8>)
    requires
        framing(s) !is Pending,
    ensures
        taken(s) <= s.len(),
        framing(s.take(taken(s) as int)) == framing(s),
{
    let n = taken(s);
    lemma_scan_bounds(s);
    if let VarIntScan::Value { value: length, used: length_len } = var_int_scan(s) {
        let tail = s.skip(length_len as int);
        lemma_scan_bounds(tail);
        lemma_scan_of_start(s, n);
        assert(s.take(n as int).skip(length_len as int) =~= tail.take(n - length_len));
        lemma_scan_of_start(tail, (n - length_len) as nat);
    } else {
        lemma_scan_of_start(s, n);
    }
}

/// The start of a sequence is read as the sequence is, or is too short.
proof fn lemma_scan_of_start(s: Seq<u8>, n: nat)
    requires
        n <= s.len(),
        var_int_scan(s) !is Incomplete,
    ensures
        ({
            let used = match var_int_scan(s) {
                VarIntScan::Value { used, .. } => used,
                _ => VAR_INT_MAX_BYTES,
            };
            &&& n >= used ==> var_int_scan(s.take(n as int)) == var_int_scan(s)
            &&& n < used ==> var_int_scan(s.take(n as int)) is Incomplete
        }),
{
    let used: int = match var_int_scan(s) {
        VarIntScan::Value { used, .. } => used as int,
        _ => VAR_INT_MAX_BYTES as int,
    };
    let t = s.take(n as int);
    lemma_scan_bounds(s);
    lemma_scan_own_bytes(s);
    if n >= used {
        assert(t =~= s.take(used) + s.subrange(used, n as int));
        lemma_scan_prefix(s.take(used), s.subrange(used, n as int));
    } else {
        lemma_scan_bounds(t);
        assert(s =~= t + s.skip(n as int));
        lemma_scan_prefix(t, s.skip(n as int));
    }
}

/// A packet is read whatever bytes its length and its id are written with, and whatever follows it:
/// just its own bytes are taken, and it holds them all, each where it belongs.
pub proof fn law_packet_of_any_encoding(
    head: Seq<u8>,
    length: i32,
    id_bytes: Seq<u8>,
    id: i32,
    data: Seq<u8>,
    rest: Seq<u8>,
)
    requires
        encodes_var_int(head, length),
        encodes_var_int(id_bytes, id),
        length == id_bytes.len() + data.len(),
        id != 122,
        data.len() <= 65535,
    ensures
        ({
            let s = head + id_bytes + data + rest;
            &&& framing(s) == (Framing::Complete {
                length,
                id,
                id_start: head.len(),
                data_start: head.len() + id_bytes.len(),
                end: head.len() + id_bytes.len() + data.len(),
            })
            &&& taken(s) == head.len() + id_bytes.len() + data.len()
            &&& s.skip(taken(s) as int) == rest
            &&& forall|p: Packet| #[trigger]
                holds_packet(s, p) ==> {
                    &&& p.length.int_value() == length
                    &&& p.length.bytes() == head
                    &&& p.id.int_value() == id
                    &&& p.id.bytes() == id_bytes
                    &&& p.data@ == data
                    &&& p.all@ == head + id_bytes + data
                }
        }),
{
    let s = head + id_bytes + data + rest;
    lemma_head(head, length, id_bytes, id, data + rest);
    assert(s =~= head + id_bytes + (data + rest));
    let start = (head.len() + id_bytes.len()) as int;
    assert(s.take(head.len() as int) =~= head);
    assert(s.subrange(head.len() as int, start) =~= id_bytes);
    assert(s.subrange(start, start + data.len()) =~= data);
    assert(s.take(start + data.len()) =~= head + id_bytes + data);
    assert(s.skip(start + data.len()) =~= rest);
}

/// A packet is refused for its id, or for a length that does not cover the id or that leaves more
/// than 65535 bytes for the data, and for nothing else; its length and its id are then taken.
pub proof fn law_refused_packets(
    head: Seq<u8>,
    length: i32,
    id_bytes: Seq<u8>,
    id: i32,
    rest: Seq<u8>,
)
    requires
        encodes_var_int(head, length),
        encodes_var_int(id_bytes, id),
    ensures
        ({
            let s = head + id_bytes + rest;
            &&& id == 122 ==> framing(s) == Framing::Rejected(ParseError::WeirdID)
            &&& id != 122 && (length < id_bytes.len() || length - id_bytes.len() > 65535)
                ==> framing(s) == Framing::Rejected(ParseError::LengthIsTooBig(length))
            &&& id != 122 && 0 <= length - id_bytes.len() <= 65535 ==> framing(s) !is Rejected
            &&& framing(s) is Rejected ==> taken(s) == head.len() + id_bytes.len()
        }),
{
    lemma_head(head, length, id_bytes, id, rest);
}

/// A packet of which data are missing is waited for: just those are wanted.
pub proof fn law_missing_data_are_wanted(
    head: Seq<u8>,
    length: i32,
    id_bytes: Seq<u8>,
    id: i32,
    part: Seq<u8>,
)
    requires
        encodes_var_int(head, length),
        encodes_var_int(id_bytes, id),
        id != 122,
        part.len() < length - id_bytes.len() <= 65535,
    ensures
        framing(head + id_bytes + part) == (Framing::Pending {
            wanted: (length - id_bytes.len() - part.len()) as nat,
        }),
        taken(head + id_bytes + part) == (head + id_bytes + part).len(),
{
    lemma_head(head, length, id_bytes, id, part);
}

/// A number that is not complete wants one byte more; one that is too long has the packet refused
/// after its fifth byte, be it the length or the id.
pub proof fn law_numbers_of_a_packet(head: Seq<u8>, length: i32, s: Seq<u8>)
    requires
        encodes_var_int(head, length),
    ensures
        var_int_scan(s) is Incomplete ==> framing(s) == (Framing::Pending { wanted: 1 })
            && framing(head + s) == (Framing::Pending { wanted: 1 }) && taken(s) == s.len()
            && taken(head + s) == head.len() + s.len(),
        var_int_scan(s) is Overlong ==> framing(s) == Framing::Rejected(ParseError::IDParseError)
            && framing(head + s) == Framing::Rejected(ParseError::IDParseError) && taken(s) == 5
            && taken(head + s) == head.len() + 5,
{
    lemma_scan_prefix(head, s);
    assert((head + s).skip(head.len() as int) =~= s);
}

proof fn lemma_head(head: Seq<u8>, length: i32, id_bytes: Seq<u8>, id: i32, rest: Seq<u8>)
    requires
        encodes_var_int(head, length),
        encodes_var_int(id_bytes, id),
    ensures
        ({
            let s = head + id_bytes + rest;
            &&& var_int_scan(s) == (VarIntScan::Value { value: length, used: head.len() as usize })
            &&& var_int_scan(s.skip(head.len() as int)) == (VarIntScan::Value {
                value: id,
                used: id_bytes.len() as usize,
            })
        }),
{
    let s = head + id_bytes + rest;
    assert(s =~= head + (id_bytes + rest));
    lemma_scan_prefix(head, id_bytes + rest);
    assert(s.skip(head.len() as int) =~= id_bytes + rest);
    lemma_scan_prefix(id_bytes, rest);
}

/// What reading a packet from bytes at hand comes to: the packet, the error for which it is
/// refused, or the error of a stream that ends early, with what was taken gone from the front.
pub proof fn law_packets_are_taken()
    ensures
        forall|stream: &mut Vec<u8>, packet: Result<Packet, ParseErrorTrace>| #[trigger]
            call_ensures(Packet::parse, (stream,), packet) ==> {
                let s = (*stream)@;
                &&& (*final(stream))@ == s.skip(taken(s) as int)
                &&& packet is Ok <==> framing(s) is Complete
                &&& packet matches Ok(p) ==> holds_packet(s, p)
                &&& packet matches Err(trace) ==> match framing(s) {
                    Framing::Rejected(error) => trace.inner == error,
                    _ => is_read_error(
                        s,
                        "Custom { kind: UnexpectedEof, error: \"early eof\" }"@,
                        trace.inner,
                    ),
                }
            },
{
}

/// What the error of a failed read says: the length that was read, its bytes and the reason, once
/// the length and the id were there, and before that just that the id could not be read.
pub proof fn law_read_errors(
    head: Seq<u8>,
    length: i32,
    id_bytes: Seq<u8>,
    id: i32,
    part: Seq<u8>,
    reason: Seq<char>,
    error: ParseError,
)
    requires
        encodes_var_int(head, length),
        encodes_var_int(id_bytes, id),
    ensures
        is_read_error(head + id_bytes + part, reason, error) ==> (
        error matches ParseError::StreamReadError(text) && text@ == "length="@ + decimal(
            length as int,
        ) + "; data="@ + byte_list(head) + "; error="@ + reason + "; "@),
        var_int_scan(part) !is Value ==> (is_read_error(part, reason, error) <==> error
            == ParseError::IDParseError) && (is_read_error(head + part, reason, error) <==> error
            == ParseError::IDParseError),
{
    lemma_head(head, length, id_bytes, id, part);
    assert((head + id_bytes + part).take(head.len() as int) =~= head);
    lemma_scan_prefix(head, part);
    assert((head + part).skip(head.len() as int) =~= part);
}

/// What reading a packet piece by piece comes to: the same as reading it at once.
pub proof fn law_pieces_are_read(
    started: PacketReader,
    reader: PacketReader,
    wanted: usize,
    bytes: Vec<u8>,
    step: PacketStep,
)
    requires
        call_ensures(PacketReader::start, (), started),
        call_ensures(PacketReader::wanted, (&reader,), wanted),
        bytes@.len() == reader.wants(),
        call_ensures(PacketReader::feed, (reader, bytes), step),
    ensures
        started.consumed().len() == 0,
        started.wants() == 1,
        wanted == reader.wants(),
        framing(reader.consumed()) == (Framing::Pending { wanted: wanted as nat }),
        ({
            let s = reader.consumed() + bytes@;
            &&& step is Done <==> framing(s) is Complete
            &&& step matches PacketStep::Done(p) ==> holds_packet(s, p)
            &&& step is Failed <==> framing(s) is Rejected
            &&& step matches PacketStep::Failed(error) ==> framing(s) == Framing::Rejected(error)
            &&& step matches PacketStep::More(next) ==> next.consumed() == s && framing(s) == (
            Framing::Pending { wanted: next.wants() })
        }),
{
}

/// The errors of a read that fails, and of a buffer that cannot be had, say what was read so far.
pub proof fn law_failed_reads(
    reader: PacketReader,
    reason: &str,
    read: ParseError,
    allocation: ParseError,
    head: Seq<u8>,
    length: i32,
    id_bytes: Seq<u8>,
    id: i32,
    part: Seq<u8>,
)
    requires
        call_ensures(PacketReader::read_failed, (&reader, reason), read),
        call_ensures(PacketReader::allocation_failed, (&reader, reason), allocation),
        encodes_var_int(head, length),
        encodes_var_int(id_bytes, id),
        0 <= length - id_bytes.len() <= 65535,
        reader.consumed() == head + id_bytes + part,
    ensures
        read matches ParseError::StreamReadError(text) && text@ == "length="@ + decimal(
            length as int,
        ) + "; data="@ + byte_list(head) + "; error="@ + reason@ + "; "@,
        allocation matches ParseError::BufferAllocationPanic(text) && text@
            == "panic while allocating with vec![] macro len_int="@ + decimal(
            id_bytes.len() as int,
        ) + " usize="@ + decimal(length as int) + " len_data="@ + decimal(
            length - id_bytes.len(),
        ) + " error="@ + reason@,
{
    lemma_head(head, length, id_bytes, id, part);
    assert((head + id_bytes + part).take(head.len() as int) =~= head);
}

} // verus!
