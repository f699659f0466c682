use mc_ingress::address::{sanitize_addr, terminate_at_null, trim_trailing_dots};
use mc_ingress::text::{byte_list_text, decimal_text, prefixed_hex_text, to_signed, to_unsigned};
use mc_ingress::types::{scan_var_int, UShort, VarInt, VarIntScan, VarString};

fn encoded(n: i32) -> Vec<u8> {
    VarInt::from(n).unwrap().get_data()
}

#[test]
fn var_int_encodings() {
    assert_eq!(encoded(0), vec![0]);
    assert_eq!(encoded(1), vec![1]);
    assert_eq!(encoded(127), vec![127]);
    assert_eq!(encoded(128), vec![0x80, 1]);
    assert_eq!(encoded(255), vec![0xff, 1]);
    assert_eq!(encoded(25565), vec![0xdd, 0xc7, 1]);
    assert_eq!(encoded(2097151), vec![0xff, 0xff, 0x7f]);
    assert_eq!(encoded(i32::MAX), vec![0xff, 0xff, 0xff, 0xff, 7]);
    assert_eq!(encoded(-1), vec![0xff, 0xff, 0xff, 0xff, 15]);
    assert_eq!(encoded(i32::MIN), vec![0x80, 0x80, 0x80, 0x80, 8]);
}

#[test]
fn var_int_round_trip() {
    for n in [0, 1, 2, 127, 128, 300, 25565, i32::MAX, -1, -746, i32::MIN] {
        let mut reader = encoded(n);
        reader.push(42);
        let read = VarInt::parse(&mut reader).unwrap();
        assert_eq!(read.get_int(), n);
        assert_eq!(read.get_data(), encoded(n));
        assert_eq!(reader, vec![42]);
    }
}

#[test]
fn var_int_encodings_differ() {
    let numbers = [0, 1, 127, 128, 16384, -1, i32::MIN, i32::MAX];
    for a in numbers {
        for b in numbers {
            assert_eq!(encoded(a) == encoded(b), a == b);
        }
    }
}

#[test]
fn var_int_keeps_the_bytes_it_was_read_from() {
    let mut reader = vec![0x81, 0x00, 5];
    let read = VarInt::parse(&mut reader).unwrap();
    assert_eq!(read.get_int(), 1);
    assert_eq!(read.get_data(), vec![0x81, 0x00]);
    assert!(read.get_data().len() >= encoded(1).len());
    assert_eq!(reader, vec![5]);
}

#[test]
fn var_int_that_cannot_be_read() {
    for bytes in [vec![], vec![0x80], vec![0x80, 0x80, 0x80, 0x80], vec![0xff; 5], vec![0xff; 6]] {
        let mut reader = bytes.clone();
        assert!(VarInt::parse(&mut reader).is_none());
        assert_eq!(reader, bytes);
    }
    assert!(matches!(scan_var_int(&[0x80]), VarIntScan::Incomplete));
    assert!(matches!(scan_var_int(&[0x80; 5]), VarIntScan::Overlong));
    assert!(matches!(scan_var_int(&[0xac, 2, 9]), VarIntScan::Value { value: 300, used: 2 }));
}

#[test]
fn var_string_round_trip() {
    for text in ["", "localhost", "play.example.com", "grüße \u{1F600}", "§d<3§r"] {
        let data = VarString::from(text.to_string()).get_data().unwrap();
        assert_eq!(data[0] as usize, text.len());
        assert_eq!(&data[1..], text.as_bytes());
        assert_eq!(VarString::from(text.to_string()).move_data().unwrap(), data);
        let mut reader = data;
        reader.extend([1, 2, 3]);
        assert_eq!(VarString::parse(&mut reader).unwrap().get_value(), text);
        assert_eq!(reader, vec![1, 2, 3]);
    }
}

#[test]
fn var_string_that_cannot_be_read() {
    // too short, not UTF-8, a negative length, no length
    for bytes in [vec![3, b'a', b'b'], vec![1, 0xff], vec![0xff, 0xff, 0xff, 0xff, 15], vec![]] {
        let mut reader = bytes.clone();
        assert!(VarString::parse(&mut reader).is_none());
        assert_eq!(reader, bytes);
    }
}

#[test]
fn u_short_round_trip() {
    assert_eq!(UShort::from(25565).get_data(), vec![0x63, 0xdd]);
    assert_eq!(UShort::from(1234).get_data(), vec![4, 0xd2]);
    for n in [0, 1, 255, 256, 25565, u16::MAX] {
        let mut reader = UShort::from(n).get_data();
        reader.push(7);
        assert_eq!(UShort::parse(&mut reader).unwrap().get_value(), n);
        assert_eq!(reader, vec![7]);
    }
    let mut short = vec![1];
    assert!(UShort::parse(&mut short).is_none());
    assert_eq!(short, vec![1]);
}

#[test]
fn numbers_as_text() {
    for n in [0, 9, 10, 25565, -1, -120, i64::MAX, i64::MIN] {
        assert_eq!(decimal_text(n), format!("{}", n));
    }
    for n in [0, 9, 10, 15, 16, 122, 255, -1, i32::MIN] {
        assert_eq!(prefixed_hex_text(n), format!("{:#x}", n));
    }
    for bytes in [vec![], vec![0], vec![255, 1, 15]] {
        assert_eq!(byte_list_text(&bytes), format!("{:?}", bytes));
    }
    assert_eq!(to_unsigned(-1), u32::MAX);
    assert_eq!(to_signed(0x1_0000_0005), 5);
    assert_eq!(to_signed(0xffff_ffff), -1);
}

#[test]
fn trailing_dots_are_dropped() {
    assert_eq!(trim_trailing_dots("server.example.com."), "server.example.com");
    assert_eq!(trim_trailing_dots("..."), "");
    assert_eq!(trim_trailing_dots(".a.b"), ".a.b");
    assert_eq!(sanitize_addr("server.example.com."), sanitize_addr("server.example.com"));
    assert_eq!(sanitize_addr(trim_trailing_dots("a..")), sanitize_addr("a.."));
}

#[test]
fn data_after_a_null_is_dropped() {
    assert_eq!(terminate_at_null("host\0FML3\0"), "host");
    assert_eq!(terminate_at_null("\0host"), "");
    assert_eq!(terminate_at_null("host"), "host");
    assert_eq!(sanitize_addr("host\0FML3\0"), "host");
    assert_eq!(sanitize_addr("host\0FML3..."), "host");
    assert_eq!(sanitize_addr("grüße.example.\0x"), "grüße.example.");
}

#[test]
fn sanitized_addresses_are_stable() {
    for addr in ["", "host", "host...", "a.b.c."] {
        let sane = sanitize_addr(addr);
        assert_eq!(sanitize_addr(sane), sane);
        assert!(addr.starts_with(sane));
        assert!(!sane.ends_with('.'));
    }
    // with a null character, a dot may be left at the end
    assert_eq!(sanitize_addr("a.\0b"), "a.");
    assert_eq!(sanitize_addr("a."), "a");
}
