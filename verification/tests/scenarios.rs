//! Byte-exact scenarios: the pinned encodings, the boundary behaviours of the
//! length encoding, and the framing of a byte stream.
use bytes::BytesMut;
use mqtt_codec::codec::PackectCodec;
use mqtt_codec::packet::connack::Connack;
use mqtt_codec::packet::connect::Connect;
use mqtt_codec::packet::disconnect::Disconnect;
use mqtt_codec::packet::pingreq::PingReq;
use mqtt_codec::packet::pingresp::PingResp;
use mqtt_codec::packet::puback::PubAck;
use mqtt_codec::packet::pubcomp::PubComp;
use mqtt_codec::packet::publish::Publish;
use mqtt_codec::packet::pubrec::PubRec;
use mqtt_codec::packet::pubrel::PubRel;
use mqtt_codec::packet::suback::SubAck;
use mqtt_codec::packet::subscribe::Subscribe;
use mqtt_codec::packet::unsuback::UnSubAck;
use mqtt_codec::packet::unsubscribe::Unsubscribe;
use mqtt_codec::packet::{encode_fixedheader, ValuePacket};
use mqtt_codec::{decode_string, DecodeError, Encodable, EncodeError};

/// Values at each size boundary of the variable-byte integer encode to the
/// documented number of bytes, and the first value past the top is refused.
#[test]
fn vbi_boundaries() {
    let cases: Vec<(u32, usize)> = vec![
        (127, 1),
        (128, 2),
        (16_383, 2),
        (16_384, 3),
        (2_097_151, 3),
        (2_097_152, 4),
        (268_435_455, 4),
    ];
    for (value, len) in cases {
        let header = encode_fixedheader(1, 0, value).unwrap();
        assert_eq!(header.len(), 1 + len);
    }
    assert_eq!(
        encode_fixedheader(1, 0, 268_435_456),
        Err(EncodeError::RemainingLengthOutOfRange)
    );
}

/// An empty string encodes to its bare length prefix and round-trips.
#[test]
fn empty_string_round_trip() {
    let s = String::new();
    let encoded = s.encode().unwrap();
    assert_eq!(encoded, vec![0x00, 0x00]);
    let mut bytes = BytesMut::from(&encoded[..]);
    assert_eq!(decode_string(&mut bytes).unwrap(), "");
    assert_eq!(bytes.len(), 0);
}

/// A string field whose content is not UTF-8 is malformed.
#[test]
fn invalid_utf8_is_malformed() {
    let vec = vec![0x00, 0x01, 0xFF];
    let mut bytes = BytesMut::from(&vec[..]);
    assert_eq!(decode_string(&mut bytes), Err(DecodeError::Malformed));
    assert_eq!(&bytes[..], &vec[..]);
}

/// PUBLISH at QoS 0 carries no packet identifier: topic, then payload.
#[test]
fn publish_qos0_omits_packet_identifier() {
    let wire = vec![0x30, 0x05, 0x00, 0x01, 0x61, 0xAA, 0xBB];
    let mut bytes = BytesMut::from(&wire[..]);
    let publish = Publish::decode(&mut bytes).unwrap();
    assert_eq!(publish.encode().unwrap(), wire);
}

/// PUBLISH at QoS 1 carries a packet identifier between topic and payload.
#[test]
fn publish_qos1_includes_packet_identifier() {
    let wire = vec![0x32, 0x07, 0x00, 0x01, 0x61, 0x12, 0x34, 0xAA, 0xBB];
    let mut bytes = BytesMut::from(&wire[..]);
    let publish = Publish::decode(&mut bytes).unwrap();
    assert_eq!(publish.encode().unwrap(), wire);
    // at QoS 0 the same variable header would be two bytes shorter
    let wire0 = vec![0x30, 0x05, 0x00, 0x01, 0x61, 0xAA, 0xBB];
    let mut bytes0 = BytesMut::from(&wire0[..]);
    let publish0 = Publish::decode(&mut bytes0).unwrap();
    assert_eq!(publish0.encode().unwrap().len() + 2, publish.encode().unwrap().len());
}

/// A SUBSCRIBE whose payload holds no filter at all is malformed.
#[test]
fn empty_subscribe_is_malformed() {
    let wire = vec![0x82, 0x02, 0x00, 0x0A];
    let mut bytes = BytesMut::from(&wire[..]);
    assert!(matches!(Subscribe::decode(&mut bytes), Err(DecodeError::Malformed)));
}

/// The pinned CONNECT layout: protocol name "MQTT", level 4, client
/// identifier "123", default flags, keep-alive zero. The remaining-length
/// byte counts the fifteen bytes that follow the fixed header.
#[test]
fn connect_pinned_bytes() {
    let packet = Connect::with_level("MQTT", "123", 4).unwrap();
    assert_eq!(
        packet.encode().unwrap(),
        vec![
            0x10, 0x0F, 0x00, 0x04, 0x4D, 0x51, 0x54, 0x54, 0x04, 0x00, 0x00, 0x00, 0x00, 0x03,
            0x31, 0x32, 0x33,
        ]
    );
    assert_eq!(packet.encode_length().unwrap(), 0x11);
}

/// The pinned CONNACK encoding: no session present, return code zero.
#[test]
fn connack_pinned_bytes() {
    let connack = Connack::new();
    assert_eq!(connack.encode().unwrap(), vec![0x20, 0x02, 0x00, 0x00]);
}

/// The pinned encodings of the three empty packets.
#[test]
fn empty_packets_pinned_bytes() {
    assert_eq!(PingReq::new().encode().unwrap(), vec![0xC0, 0x00]);
    assert_eq!(PingResp::new().encode().unwrap(), vec![0xD0, 0x00]);
    assert_eq!(Disconnect::new().encode().unwrap(), vec![0xE0, 0x00]);
}

/// The pinned PUBACK encoding for packet identifier 0x1234.
#[test]
fn puback_pinned_bytes() {
    let mut puback = PubAck::new();
    puback.set_packet_identifier(0x1234);
    assert_eq!(puback.encode().unwrap(), vec![0x40, 0x02, 0x12, 0x34]);
}

/// The framer yields the buffered CONNACK, leaves the lone trailing byte
/// untouched, and frames the PINGREQ once its second byte arrives.
#[test]
fn framer_keeps_partial_packet() {
    let mut codec = PackectCodec;
    let wire = vec![0x20, 0x02, 0x00, 0x00, 0xC0];
    let mut buf = BytesMut::from(&wire[..]);

    let first = codec.decode(&mut buf).unwrap();
    assert!(matches!(first, Some(ValuePacket::ConnackPacket(_))));
    assert_eq!(&buf[..], &[0xC0]);

    let waiting = codec.decode(&mut buf).unwrap();
    assert!(waiting.is_none());
    assert_eq!(&buf[..], &[0xC0]);

    buf.extend_from_slice(&[0x00]);
    let second = codec.decode(&mut buf).unwrap();
    assert!(matches!(second, Some(ValuePacket::PingReqPacket(_))));
    assert_eq!(buf.len(), 0);
}

/// Encoding through the framing codec appends exactly the packet's bytes to
/// the write buffer.
#[test]
fn codec_encode_appends_packet() {
    let mut codec = PackectCodec;
    let mut out = BytesMut::new();
    out.extend_from_slice(&[0x99]);
    let packet = ValuePacket::ConnackPacket(Connack::new());
    codec.encode(&packet, &mut out).unwrap();
    assert_eq!(&out[..], &[0x99, 0x20, 0x02, 0x00, 0x00]);
}

/// The pinned SUBSCRIBE layout: packet identifier 10, then "a/b" at QoS 0 and
/// "c" at QoS 2, under leading byte 0x82.
#[test]
fn subscribe_pinned_bytes() {
    let wire = vec![
        0x82, 0x0C, 0x00, 0x0A, 0x00, 0x03, 0x61, 0x2F, 0x62, 0x00, 0x00, 0x01, 0x63, 0x02,
    ];
    let mut bytes = BytesMut::from(&wire[..]);
    let subscribe = Subscribe::decode(&mut bytes).unwrap();
    assert_eq!(subscribe.encode().unwrap(), wire);
    assert_eq!(bytes.len(), 0);
}

/// Every packet kind, encoded and fed to the dispatcher, comes back as the
/// same kind.
#[test]
fn dispatcher_covers_every_packet_type() {
    let packets: Vec<ValuePacket> = vec![
        ValuePacket::ConnectPacket(Connect::with_level("MQTT", "123", 4).unwrap()),
        ValuePacket::ConnackPacket(Connack::new()),
        ValuePacket::PublishPacket(Publish::new()),
        ValuePacket::PubAckPacket(PubAck::new()),
        ValuePacket::PubRecPacket(PubRec::new()),
        ValuePacket::PubRelPacket(PubRel::new()),
        ValuePacket::PubCompPacket(PubComp::new()),
        ValuePacket::SubscribePacket(Subscribe::new()),
        ValuePacket::SubAckPacket(SubAck::new()),
        ValuePacket::UnsubscribePacket(Unsubscribe::new()),
        ValuePacket::UnSubAckPacket(UnSubAck::new()),
        ValuePacket::PingReqPacket(PingReq::new()),
        ValuePacket::PingRespPacket(PingResp::new()),
        ValuePacket::DisconnectPacket(Disconnect::new()),
    ];
    for packet in packets {
        let wire = packet.encode().unwrap();
        assert_eq!(packet.encode_length().unwrap() as usize, wire.len());
        let mut bytes = BytesMut::from(&wire[..]);
        let decoded = ValuePacket::decode(&mut bytes).unwrap();
        assert_eq!(bytes.len(), 0);
        let same_kind = match (&packet, &decoded) {
            (ValuePacket::ConnectPacket(_), ValuePacket::ConnectPacket(_)) => true,
            (ValuePacket::ConnackPacket(_), ValuePacket::ConnackPacket(_)) => true,
            (ValuePacket::PublishPacket(_), ValuePacket::PublishPacket(_)) => true,
            (ValuePacket::PubAckPacket(_), ValuePacket::PubAckPacket(_)) => true,
            (ValuePacket::PubRecPacket(_), ValuePacket::PubRecPacket(_)) => true,
            (ValuePacket::PubRelPacket(_), ValuePacket::PubRelPacket(_)) => true,
            (ValuePacket::PubCompPacket(_), ValuePacket::PubCompPacket(_)) => true,
            (ValuePacket::SubscribePacket(_), ValuePacket::SubscribePacket(_)) => true,
            (ValuePacket::SubAckPacket(_), ValuePacket::SubAckPacket(_)) => true,
            (ValuePacket::UnsubscribePacket(_), ValuePacket::UnsubscribePacket(_)) => true,
            (ValuePacket::UnSubAckPacket(_), ValuePacket::UnSubAckPacket(_)) => true,
            (ValuePacket::PingReqPacket(_), ValuePacket::PingReqPacket(_)) => true,
            (ValuePacket::PingRespPacket(_), ValuePacket::PingRespPacket(_)) => true,
            (ValuePacket::DisconnectPacket(_), ValuePacket::DisconnectPacket(_)) => true,
            _ => false,
        };
        assert!(same_kind);
        // the re-encoding is byte-identical: nothing was lost in the trip
        assert_eq!(decoded.encode().unwrap(), wire);
    }
}

/// An unknown packet-type nibble is malformed.
#[test]
fn unknown_packet_type_is_malformed() {
    let wire = vec![0xF0, 0x00];
    let mut bytes = BytesMut::from(&wire[..]);
    assert!(matches!(ValuePacket::decode(&mut bytes), Err(DecodeError::Malformed)));
    let wire0 = vec![0x00, 0x00];
    let mut bytes0 = BytesMut::from(&wire0[..]);
    assert!(matches!(ValuePacket::decode(&mut bytes0), Err(DecodeError::Malformed)));
}

/// A string longer than its two-byte length prefix allows is refused.
#[test]
fn oversized_field_is_refused() {
    let mut connect = Connect::with_level("MQTT", "123", 4).unwrap();
    let huge = "x".repeat(70_000);
    assert_eq!(connect.set_user_name(Some(huge)), Err(EncodeError::FieldTooLong));
}

/// A five-byte length encoding in the fixed header is malformed and the
/// buffer is left untouched.
#[test]
fn overlong_vbi_is_malformed() {
    let mut codec = PackectCodec;
    let wire = vec![0x30, 0xFF, 0xFF, 0xFF, 0xFF, 0x01];
    let mut buf = BytesMut::from(&wire[..]);
    assert!(matches!(codec.decode(&mut buf), Err(DecodeError::Malformed)));
    assert_eq!(&buf[..], &wire[..]);
}

/// The primitive codecs agree with their reported lengths and round-trip.
#[test]
fn primitive_round_trips() {
    let v: u16 = 0xABCD;
    let encoded = v.encode().unwrap();
    assert_eq!(encoded.len() as u32, v.encode_length().unwrap());
    let mut bytes = BytesMut::from(&encoded[..]);
    assert_eq!(mqtt_codec::decode_u16(&mut bytes).unwrap(), v);

    let s = String::from("topic/one");
    let encoded = s.encode().unwrap();
    assert_eq!(encoded.len() as u32, s.encode_length().unwrap());
    let mut bytes = BytesMut::from(&encoded[..]);
    assert_eq!(decode_string(&mut bytes).unwrap(), s);
}

/// A decoded CONNACK reflects what the setters stored.
#[test]
fn connack_setters_round_trip() {
    let mut connack = Connack::new();
    connack.set_connect_ack_flag(true);
    connack.set_connect_return_code(5);
    let wire = connack.encode().unwrap();
    assert_eq!(wire, vec![0x20, 0x02, 0x01, 0x05]);
    let mut bytes = BytesMut::from(&wire[..]);
    let back = Connack::decode(&mut bytes).unwrap();
    assert_eq!(back.encode().unwrap(), wire);
}

/// A CONNECT with every optional field set survives the round trip.
#[test]
fn connect_full_round_trip() {
    let mut connect = Connect::with_level("MQTT", "client-7", 4).unwrap();
    connect.set_will(Some((String::from("will/topic"), vec![1, 2, 3]))).unwrap();
    connect.set_will_qos(1);
    connect.set_will_retain(true);
    connect.set_user_name(Some(String::from("user"))).unwrap();
    connect.set_password(Some(String::from("pass"))).unwrap();
    connect.set_clean_session(true);
    let wire = connect.encode().unwrap();
    assert_eq!(wire.len() as u32, connect.encode_length().unwrap());
    let mut bytes = BytesMut::from(&wire[..]);
    let back = Connect::decode(&mut bytes).unwrap();
    assert_eq!(back.encode().unwrap(), wire);
}

/// A remaining length reported by the fixed header matches the body length
/// on the wire.
#[test]
fn remaining_length_matches_body() {
    let packets: Vec<Vec<u8>> = vec![
        Connack::new().encode().unwrap(),
        Subscribe::new().encode().unwrap(),
        SubAck::new().encode().unwrap(),
        Unsubscribe::new().encode().unwrap(),
        Publish::new().encode().unwrap(),
    ];
    for wire in packets {
        let b = BytesMut::from(&wire[..]);
        let (_, _, remaining, header_len) = mqtt_codec::packet::get_fixheader(&b).unwrap();
        assert_eq!(wire.len() - header_len, remaining as usize);
        assert_eq!(ValuePacket::get_packet_length(&b).unwrap() as usize, wire.len());
    }
}
