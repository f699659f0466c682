use mc_ingress::packets::clientbound::login::Disconnect;
use mc_ingress::packets::clientbound::status::{StatusResponse, StatusStructNew};
use mc_ingress::packets::reader::{PacketReader, PacketStep};
use mc_ingress::packets::serverbound::handshake::Handshake;
use mc_ingress::packets::{Packet, ParseError, ParseErrorTrace, ProtocolState, SendPacket};
use mc_ingress::types::{UShort, VarInt, VarString};

fn parse_error(bytes: &[u8]) -> String {
    error_and_rest(bytes).0
}

/// The error that comes of `bytes`, and what is left of them.
fn error_and_rest(bytes: &[u8]) -> (String, Vec<u8>) {
    let mut stream = bytes.to_vec();
    let error = Packet::parse(&mut stream).unwrap_err();
    (error.inner.message(), stream)
}

fn handshake() -> Handshake {
    Handshake::create(
        VarInt::from(746).unwrap(),
        VarString::from("play.example.com".to_string()),
        UShort::from(25565),
        VarInt::from(2).unwrap(),
    )
    .unwrap()
}

/// Feeds `bytes` to a reader, and gives back what came of it and what was not read.
fn read_in_pieces(bytes: &[u8]) -> (PacketStep, Vec<u8>) {
    let mut reader = PacketReader::start();
    let mut rest = bytes.to_vec();
    loop {
        let wanted = reader.wanted();
        if wanted > rest.len() {
            return (PacketStep::More(reader), rest);
        }
        let later = rest.split_off(wanted);
        let piece = std::mem::replace(&mut rest, later);
        match reader.feed(piece) {
            PacketStep::More(next) => reader = next,
            step => return (step, rest),
        }
    }
}

#[test]
fn packet_round_trip() {
    let packet = Packet::from_bytes(1, vec![9, 8, 7]).unwrap();
    assert_eq!(packet.all, vec![4, 1, 9, 8, 7]);
    assert_eq!(packet.length.get_int(), 4);
    assert_eq!(packet.all().unwrap(), packet.all);
    let mut stream = packet.wire_bytes();
    stream.extend([5, 5]);
    let read = Packet::parse(&mut stream).unwrap();
    assert_eq!(read.id.get_int(), 1);
    assert_eq!(read.length.get_int(), 4);
    assert_eq!(read.data, vec![9, 8, 7]);
    assert_eq!(read.all, packet.all);
    assert_eq!(stream, vec![5, 5]);
}

#[test]
fn packet_with_long_data() {
    let packet = Packet::from_bytes(300, vec![7; 1000]).unwrap();
    assert_eq!(packet.all[..4], [0xea, 7, 0xac, 2]);
    let mut stream = packet.all.clone();
    assert_eq!(Packet::parse(&mut stream).unwrap().data, vec![7; 1000]);
    assert!(stream.is_empty());
}

#[test]
fn packet_with_the_most_data() {
    let mut stream = Packet::from_bytes(0, vec![1; 65535]).unwrap().all;
    assert_eq!(Packet::parse(&mut stream).unwrap().data.len(), 65535);
}

#[test]
fn packet_that_is_framed_the_long_way() {
    let bytes = vec![0x83, 0x00, 0x81, 0x00, 5];
    let mut stream = bytes.clone();
    let packet = Packet::parse(&mut stream).unwrap();
    assert_eq!(packet.id.get_int(), 1);
    assert_eq!(packet.data, vec![5]);
    assert_eq!(packet.wire_bytes(), bytes);
    // the id stays as it came, the length is written anew
    assert_eq!(packet.all().unwrap(), vec![3, 0x81, 0x00, 5]);
}

#[test]
fn broken_packet_repeats_its_data() {
    let packet = Packet::new(9, vec![0; 8]).unwrap();
    let mut expected = vec![9, 9];
    expected.extend([0; 16]);
    assert_eq!(packet.all, expected);
    assert_eq!(packet.data, vec![0; 8]);
    assert_eq!(packet.length.get_int(), 9);
    let mut stream = packet.all;
    assert_eq!(Packet::parse(&mut stream).unwrap().data, vec![0; 8]);
    assert_eq!(stream, vec![0; 8]);
}

#[test]
fn weird_id_is_refused() {
    assert_eq!(parse_error(&[1, 122]), "WeirdID: weird packet id encountered: 122");
    assert_eq!(parse_error(&[4, 122, 1, 2, 3, 4]), "WeirdID: weird packet id encountered: 122");
}

#[test]
fn oversized_packet_is_refused() {
    let bytes = Packet::from_bytes(0, vec![1; 65536]).unwrap().all;
    assert_eq!(parse_error(&bytes), "LengthIsTooBig: packet length is too big; len=65537");
}

#[test]
fn negative_length_is_refused() {
    assert_eq!(
        parse_error(&[0xff, 0xff, 0xff, 0xff, 15, 0]),
        "LengthIsTooBig: packet length is too big; len=-1"
    );
}

#[test]
fn length_smaller_than_the_id_is_refused() {
    assert_eq!(parse_error(&[0, 0]), "LengthIsTooBig: packet length is too big; len=0");
    assert_eq!(parse_error(&[1, 0x81, 0x00]), "LengthIsTooBig: packet length is too big; len=1");
}

#[test]
fn refused_packets_are_taken_up_to_what_shows_it() {
    let left = |bytes: &[u8]| error_and_rest(bytes).1;
    // the length and the id
    assert_eq!(left(&[1, 122, 7, 8]), vec![7, 8]);
    assert_eq!(left(&[0, 0, 7, 8]), vec![7, 8]);
    assert_eq!(left(&[0xff, 0xff, 0xff, 0xff, 15, 0, 7]), vec![7]);
    // a number that is too long
    assert_eq!(left(&[0xff, 0xff, 0xff, 0xff, 0xff, 7]), vec![7]);
    assert_eq!(left(&[1, 0xff, 0xff, 0xff, 0xff, 0xff, 7]), vec![7]);
    // all that there is
    assert_eq!(left(&[0x80]), vec![]);
    assert_eq!(left(&[1, 0x80]), vec![]);
    assert_eq!(left(&[5, 1, 7, 8]), vec![]);
    for bytes in [
        vec![1, 122, 7, 8],
        vec![0, 0, 7],
        vec![0xff; 7],
        vec![1, 0xff, 0xff, 0xff, 0xff, 0xff, 7],
    ] {
        match read_in_pieces(&bytes) {
            (PacketStep::Failed(error), rest) => {
                assert_eq!((error.message(), rest), error_and_rest(&bytes))
            }
            _ => panic!("the packet is refused"),
        }
    }
}

#[test]
fn numbers_that_cannot_be_read_are_refused() {
    let expected = "IDParseError: could not parse packet id";
    assert_eq!(parse_error(&[]), expected);
    assert_eq!(parse_error(&[0x80]), expected);
    assert_eq!(parse_error(&[0xff; 5]), expected);
    assert_eq!(parse_error(&[1, 0x80]), expected);
    assert_eq!(parse_error(&[1, 0xff, 0xff, 0xff, 0xff, 0xff]), expected);
}

#[test]
fn stream_that_ends_early() {
    assert_eq!(
        parse_error(&[0x83, 0x00, 1, 7]),
        "StreamReadError: length=3; data=[131, 0]; \
         error=Custom { kind: UnexpectedEof, error: \"early eof\" }; "
    );
}

#[test]
fn messages_of_parse_errors() {
    assert_eq!(
        ParseError::DataIsZero.message(),
        "DataIsZero: data portion of packet does not exist"
    );
    assert_eq!(
        ParseError::PacketLengthInvalid(3).message(),
        "PacketLengthInvalid: packet lenght is smaller then packet len=3"
    );
    assert_eq!(
        ParseError::StreamReadError("x".to_string()).message(),
        "StreamReadError: x"
    );
    assert_eq!(
        ParseError::BufferAllocationPanic("x".to_string()).message(),
        "BufferAllocationPanic: x"
    );
    let trace = ParseErrorTrace::from(ParseError::LengthIsTooBig(7));
    assert!(matches!(trace.inner, ParseError::LengthIsTooBig(7)));
}

#[test]
fn reader_reads_what_parse_reads() {
    let mut bytes = handshake().wire_bytes();
    let mut stream = bytes.clone();
    bytes.extend([1, 2, 3]);
    let expected = Packet::parse(&mut stream).unwrap();
    match read_in_pieces(&bytes) {
        (PacketStep::Done(packet), rest) => {
            assert_eq!(packet.all, expected.all);
            assert_eq!(packet.data, expected.data);
            assert_eq!(packet.id.get_int(), expected.id.get_int());
            // nothing after the end of the packet was asked for
            assert_eq!(rest, vec![1, 2, 3]);
        }
        _ => panic!("the packet is complete"),
    }
}

#[test]
fn reader_without_data() {
    match read_in_pieces(&[1, 0, 9]) {
        (PacketStep::Done(packet), rest) => {
            assert!(packet.data.is_empty());
            assert_eq!(packet.all, vec![1, 0]);
            assert_eq!(rest, vec![9]);
        }
        _ => panic!("the packet is complete"),
    }
}

#[test]
fn reader_refuses_what_parse_refuses() {
    for bytes in [
        vec![1, 122],
        vec![0, 0],
        vec![0xff, 0xff, 0xff, 0xff, 15, 0],
        vec![0xff; 5],
    ] {
        match read_in_pieces(&bytes) {
            (PacketStep::Failed(error), _) => assert_eq!(error.message(), parse_error(&bytes)),
            _ => panic!("the packet is refused"),
        }
    }
}

#[test]
fn reader_reports_failed_reads() {
    match read_in_pieces(&[0x80]) {
        (PacketStep::More(reader), _) => {
            assert_eq!(reader.wanted(), 1);
            assert!(matches!(reader.read_failed("gone"), ParseError::IDParseError));
            assert!(matches!(reader.allocation_failed("gone"), ParseError::IDParseError));
        }
        _ => panic!("the packet is not complete"),
    }
    match read_in_pieces(&[5, 1, 2]) {
        (PacketStep::More(reader), rest) => {
            assert_eq!(rest, vec![2]);
            assert_eq!(reader.wanted(), 4);
            assert_eq!(
                reader.read_failed("gone").message(),
                "StreamReadError: length=5; data=[5]; error=gone; "
            );
            assert_eq!(
                reader.allocation_failed("Any { .. }").message(),
                "BufferAllocationPanic: panic while allocating with vec![] macro len_int=1 \
                 usize=5 len_data=4 error=Any { .. }"
            );
        }
        _ => panic!("the packet is not complete"),
    }
}

#[test]
fn handshake_over_the_wire() {
    let sent = handshake();
    let mut stream = sent.wire_bytes();
    assert_eq!(stream[..5], [23, 0, 0xea, 5, 16]);
    let read = Handshake::parse(Packet::parse(&mut stream).unwrap()).unwrap();
    assert_eq!(read.protocol_version.get_int(), 746);
    assert_eq!(read.get_server_address(), "play.example.com");
    assert_eq!(read.server_port.get_value(), 25565);
    assert_eq!(read.get_next_state(), 2);
    assert_eq!(read.wire_bytes(), sent.wire_bytes());
}

#[test]
fn handshake_keeps_what_follows_its_fields() {
    let mut body = handshake().wire_bytes().split_off(2);
    body.extend([1, 2, 3]);
    let packet = Packet::from_bytes(0, body).unwrap();
    let all = packet.all.clone();
    let read = Handshake::parse(packet).unwrap();
    assert_eq!(read.get_server_address(), "play.example.com");
    assert_eq!(read.wire_bytes(), all);
}

#[test]
fn handshake_with_missing_fields() {
    let body = handshake().wire_bytes().split_off(2);
    for n in 0..body.len() {
        let packet = Packet::from_bytes(0, body[..n].to_vec()).unwrap();
        assert!(Handshake::parse(packet).is_none());
    }
}

#[test]
fn handshake_with_an_odd_next_state() {
    let odd = Handshake::create(
        VarInt::from(0).unwrap(),
        VarString::from(String::new()),
        UShort::from(0),
        VarInt::from(-7).unwrap(),
    )
    .unwrap();
    assert_eq!(odd.get_next_state(), -7);
    let mut stream = odd.wire_bytes();
    assert!(Handshake::parse(Packet::parse(&mut stream).unwrap()).is_none());
    for (state, read) in [(0, false), (1, true), (2, true), (3, true), (4, false), (7, false)] {
        let data = vec![0xea, 0x05, 0x01, 0x61, 0x63, 0xdd, state];
        let packet = Packet::from_bytes(0, data).unwrap();
        assert_eq!(Handshake::parse(packet).is_some(), read);
    }
}

#[test]
fn disconnect_over_the_wire() {
    let sent = Disconnect::set_reason("Starting...§d<3§r".to_string()).unwrap();
    assert_eq!(sent.get_string(), "Starting...§d<3§r");
    let mut stream = sent.get_all();
    assert_eq!(stream, sent.wire_bytes());
    let read = Disconnect::parse(Packet::parse(&mut stream).unwrap()).unwrap();
    assert_eq!(read.get_string(), "Starting...§d<3§r");
    assert_eq!(read.get_all(), sent.get_all());
    let empty = Packet::from_bytes(0, vec![]).unwrap();
    assert!(Disconnect::parse(empty).is_none());
}

#[test]
fn status_response_over_the_wire() {
    let sent = StatusResponse::set_json("{\"players\":{}}".to_string()).unwrap();
    let mut stream = sent.wire_bytes();
    assert_eq!(stream[..3], [16, 0, 14]);
    let read = StatusResponse::parse(Packet::parse(&mut stream).unwrap()).unwrap();
    assert_eq!(read.get_json(), "{\"players\":{}}");
    assert_eq!(read.wire_bytes(), sent.wire_bytes());
    let empty = Packet::from_bytes(0, vec![]).unwrap();
    assert!(StatusResponse::parse(empty).is_none());
}

#[test]
fn empty_status() {
    let status = StatusStructNew::create();
    assert_eq!(status.version.name, "");
    assert_eq!(status.version.protocol, 0);
    assert_eq!(status.players.max, 0);
    assert_eq!(status.players.online, 0);
    assert_eq!(status.description.text, "");
}

#[test]
fn protocol_states() {
    assert_eq!(ProtocolState::from_next_state(1), Some(ProtocolState::Status));
    assert_eq!(ProtocolState::from_next_state(2), Some(ProtocolState::Login));
    assert_eq!(ProtocolState::from_next_state(3), Some(ProtocolState::Transfer));
    assert_eq!(ProtocolState::from_next_state(0), None);
    assert_eq!(ProtocolState::from_next_state(4), None);
    assert_eq!(ProtocolState::Handshaking.to_string(), "Hanshake");
    assert_eq!(ProtocolState::Status.to_string(), "Status");
    assert_eq!(ProtocolState::Login.to_string(), "Login");
    assert_eq!(ProtocolState::Transfer.to_string(), "Transfer");
    assert_eq!(ProtocolState::Configuration.to_string(), "Configuration ");
    assert_eq!(ProtocolState::Play.to_string(), "Play");
    assert_eq!(ProtocolState::ShutDown.to_string(), "Shutdown");
}
