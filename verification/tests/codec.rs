use bytes::BytesMut;
use mchat::internal::packet::Packet;
use mchat::internal::packet::PacketError;
use mchat::internal::packet::PacketType;
use mchat::internal::packet::PacketVersion;

fn buf(data: &[u8]) -> BytesMut {
    let mut b = BytesMut::new();
    b.extend_from_slice(data);
    b
}

#[test]
fn line_decode_single() {
    let mut b = buf(b"hi\r\n");
    let list = Packet::unmarshal_from_line(&mut b).unwrap();
    assert_eq!(list.len(), 1);
    assert_eq!(list[0].msg.as_deref(), Some("hi"));
    assert_eq!(list[0].user_id, 0);
    assert!(list[0].username.is_none());
    assert!(matches!(list[0].operation, PacketType::Message));
    assert!(matches!(list[0].version, PacketVersion::V1));
    assert!(b.is_empty());
}

#[test]
fn line_decode_multiple_in_order() {
    let mut b = buf(b"a\r\nbb\r\nccc\r\n");
    let list = Packet::unmarshal_from_line(&mut b).unwrap();
    let texts: Vec<&str> = list.iter().map(|p| p.msg.as_deref().unwrap()).collect();
    assert_eq!(texts, vec!["a", "bb", "ccc"]);
    assert!(b.is_empty());
}

#[test]
fn line_decode_keeps_partial_tail() {
    let mut b = buf(b"a\r\nbc");
    let list = Packet::unmarshal_from_line(&mut b).unwrap();
    assert_eq!(list.len(), 1);
    assert_eq!(list[0].msg.as_deref(), Some("a"));
    assert_eq!(&b[..], b"bc");
}

#[test]
fn line_decode_chunked_matches_whole() {
    let stream: &[u8] = b"hello\r\nworld\r\nsplit\r\ntail";
    let mut whole = buf(stream);
    let w = Packet::unmarshal_from_line(&mut whole).unwrap();
    let want: Vec<String> = w.into_iter().map(|p| p.msg.unwrap()).collect();

    let mut chunked = BytesMut::new();
    let mut got: Vec<String> = Vec::new();
    for chunk in stream.chunks(1) {
        chunked.extend_from_slice(chunk);
        for p in Packet::unmarshal_from_line(&mut chunked).unwrap() {
            got.push(p.msg.unwrap());
        }
    }
    assert_eq!(got, want);
    assert_eq!(&chunked[..], &whole[..]);
}

#[test]
fn line_encode_then_decode_roundtrip() {
    let mut b = buf(b"caf\xc3\xa9\r\n");
    let list = Packet::unmarshal_from_line(&mut b).unwrap();
    assert_eq!(list.len(), 1);
    assert_eq!(list[0].msg.as_deref(), Some("caf\u{e9}"));
    assert!(b.is_empty());
}

#[test]
fn line_invalid_utf8_decoded_leniently() {
    let mut b = buf(b"\xffx\r\n");
    let list = Packet::unmarshal_from_line(&mut b).unwrap();
    assert_eq!(list.len(), 1);
    assert_eq!(list[0].msg.as_deref(), Some("\u{fffd}x"));
}

#[test]
fn line_empty_extractions_yield_nothing() {
    let mut b = buf(b"\r\n\r\n");
    let list = Packet::unmarshal_from_line(&mut b).unwrap();
    assert_eq!(list.len(), 0);
    assert!(b.is_empty());

    let mut b2 = buf(b"\r\nx\r\n");
    let list2 = Packet::unmarshal_from_line(&mut b2).unwrap();
    assert_eq!(list2.len(), 1);
    assert_eq!(list2[0].msg.as_deref(), Some("x"));
}

#[test]
fn bin_decode_message_frame() {
    let mut b = buf(&[0, 4, 1, 3, b'h', b'i']);
    let list = Packet::unmarshal_from_byte(&mut b).unwrap();
    assert_eq!(list.len(), 1);
    assert!(matches!(list[0].operation, PacketType::Message));
    assert_eq!(list[0].msg.as_deref(), Some("hi"));
    assert_eq!(b.len(), 0);
}

#[test]
fn bin_zero_length_rejected() {
    let mut b = buf(&[0, 0, 1]);
    assert_eq!(
        Packet::unmarshal_from_byte(&mut b).unwrap_err(),
        PacketError::ProtocolError
    );
}

#[test]
fn bin_oversized_length_rejected() {
    let mut b = buf(&[0x20, 0, 1]);
    assert_eq!(
        Packet::unmarshal_from_byte(&mut b).unwrap_err(),
        PacketError::ProtocolError
    );
}

#[test]
fn bin_incomplete_then_complete() {
    let mut b = buf(&[0, 4, 1]);
    let first = Packet::unmarshal_from_byte(&mut b).unwrap();
    assert_eq!(first.len(), 0);
    assert_eq!(&b[..], &[0, 4, 1]);

    b.extend_from_slice(&[3, b'h', b'i']);
    let second = Packet::unmarshal_from_byte(&mut b).unwrap();
    assert_eq!(second.len(), 1);
    assert_eq!(second[0].msg.as_deref(), Some("hi"));
    assert_eq!(b.len(), 0);
}

#[test]
fn bin_unknown_version_rejected() {
    let mut b = buf(&[0, 4, 2, 3, b'h', b'i']);
    assert_eq!(
        Packet::unmarshal_from_byte(&mut b).unwrap_err(),
        PacketError::UnSupportVersion
    );
}

#[test]
fn bin_unknown_operation_dropped() {
    let mut b = buf(&[0, 4, 1, 9, b'h', b'i', 0, 4, 1, 3, b'o', b'k']);
    let list = Packet::unmarshal_from_byte(&mut b).unwrap();
    assert_eq!(list.len(), 1);
    assert_eq!(list[0].msg.as_deref(), Some("ok"));
}

#[test]
fn bin_invalid_utf8_rejected() {
    let mut b = buf(&[0, 3, 1, 3, 0xff]);
    assert_eq!(
        Packet::unmarshal_from_byte(&mut b).unwrap_err(),
        PacketError::TransformFailed
    );
}

#[test]
fn bin_check_predicate() {
    assert!(Packet::check(&buf(&[0, 4, 1, 3, b'h', b'i'])));
    assert!(!Packet::check(&buf(&[0, 9, 1])));
    assert!(!Packet::check(&buf(&[0])));
}

#[test]
fn version_from_u8_table() {
    assert!(matches!(PacketVersion::from_u8(1), Some(PacketVersion::V1)));
    assert!(PacketVersion::from_u8(0).is_none());
    assert!(PacketVersion::from_u8(2).is_none());
}

#[test]
fn type_from_u8_table() {
    assert!(matches!(PacketType::from_u8(1), Some(PacketType::Ping)));
    assert!(matches!(PacketType::from_u8(2), Some(PacketType::Pong)));
    assert!(matches!(PacketType::from_u8(3), Some(PacketType::Message)));
    assert!(matches!(PacketType::from_u8(4), Some(PacketType::MessageAck)));
    assert!(PacketType::from_u8(0).is_none());
    assert!(PacketType::from_u8(5).is_none());
}

#[test]
fn packet_profile_accessors() {
    let mut p = Packet::new();
    assert_eq!(p.get_user_profile(), (0, None));
    p.set_user_profile(7, String::from("alice"));
    let (uid, name) = p.get_user_profile();
    assert_eq!(uid, 7);
    assert_eq!(name.as_deref(), Some("alice"));
}

#[test]
fn time_format_shape() {
    let p = Packet::new();
    let s = p.get_time_format();
    let bytes = s.as_bytes();
    assert_eq!(bytes.len(), 8);
    assert_eq!(bytes[2], b':');
    assert_eq!(bytes[5], b':');
    for i in [0, 1, 3, 4, 6, 7] {
        assert!(bytes[i].is_ascii_digit());
    }
}
