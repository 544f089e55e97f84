//! Encode/decode exercises for each packet type and the primitives.
#![allow(non_snake_case)]
use bytes::BytesMut;
use mqtt_codec::packet::connack::Connack;
use mqtt_codec::packet::connect::Connect;
use mqtt_codec::packet::disconnect::Disconnect;
use mqtt_codec::packet::pingreq::PingReq;
use mqtt_codec::packet::pingresp::PingResp;
use mqtt_codec::packet::pubcomp::PubComp;
use mqtt_codec::packet::publish::{Publish, PublishFixedHeader};
use mqtt_codec::packet::pubrec::PubRec;
use mqtt_codec::packet::suback::SubAck;
use mqtt_codec::packet::subscribe::Subscribe;
use mqtt_codec::packet::unsuback::UnSubAck;
use mqtt_codec::packet::unsubscribe::Unsubscribe;
use mqtt_codec::packet::encode_fixedheader;
use mqtt_codec::packet::get_fixheader;
use mqtt_codec::variable_header::{ConnectAckFlags, ConnectFlags, VecBytes};
use mqtt_codec::return_code::SubscribeReturnCode;
use mqtt_codec::{decode_string, decode_u8, Encodable};

#[test]
fn it_works() {}

#[test]
fn check_string_decode() {
    let mut vec = vec![0x00, 0x04];
    vec.extend(String::from("mqtt").into_bytes().iter().clone());
    let mut bytes = BytesMut::from(&vec[..]);

    let result = decode_string(&mut bytes);
    assert_eq!(result.unwrap(), "mqtt");
    assert_eq!(bytes.len(), 0);
}

#[test]
fn check_u8_decode() {
    let vec: Vec<u8> = vec![];
    let mut bytes = BytesMut::from(&vec[..]);

    let result = decode_u8(&mut bytes);
    assert!(result.is_err());
}

#[test]
fn check_string_encode() {
    let target = String::from("enjie");
    let encoded = target.encode().unwrap();
    assert_eq!(encoded, vec![0x00, 0x05, 0x65, 0x6E, 0x6A, 0x69, 0x65]);
}

#[test]
fn check_u16_encode() {
    let number = 65535u16;

    let mut bytes = BytesMut::from(&number.encode().unwrap()[..]);

    let decoded = mqtt_codec::decode_u16(&mut bytes);
    assert_eq!(decoded.unwrap(), 65535u16);
}

#[test]
fn test_encode_decode_connect_ack_flag() {
    let vec = vec![0u8];
    let mut bytes = BytesMut::from(&vec[..]);
    let caf = ConnectAckFlags::decode(&mut bytes);
    let result = caf.unwrap().encode();
    assert_eq!(result.unwrap(), vec![0u8]);
}

#[test]
fn test_encode_decode_connack_packet() {
    let connack = Connack::new();
    let mut bytes = BytesMut::from(&connack.encode().unwrap()[..]);
    let connack_copy = Connack::decode(&mut bytes);
    assert!(connack_copy.is_ok());
    assert_eq!(connack_copy.unwrap().encode().unwrap(), connack.encode().unwrap());
}

#[test]
fn test_connect_flag() {
    let vec = vec![0x13];
    let mut bytes = BytesMut::from(&vec[..]);
    let connect_flag = ConnectFlags::decode(&mut bytes);
    let f = connect_flag.unwrap();
    assert!(!f.user_name_flag);
    assert!(f.will_QoS == 2);
    assert!(!f.will_flag);
    assert!(f.clean_session);
    assert!(f.reserved);
}

#[test]
fn test_vecbytes() {
    let vec = vec![0x00, 0x02, 0x13, 0x32, 0x33];
    let mut bytes = BytesMut::from(&vec[..]);
    let vec_bytes = VecBytes::decode(&mut bytes);
    assert_eq!(vec_bytes.unwrap().0, vec![0x13, 0x32]);
    assert_eq!(&bytes[..], &[0x33]);
}

#[test]
fn test_encode_vecbytes() {
    let vec = vec![0x00, 0x02, 0x13, 0x32, 0x33];
    let param = VecBytes(vec);
    let encoded = param.encode().unwrap();
    assert_eq!(encoded, vec![0x00, 0x05, 0x00, 0x02, 0x13, 0x32, 0x33]);
}

#[test]
fn test_connect_packet() {
    let vec: Vec<u8> = vec![];
    let mut bytes = BytesMut::from(&vec[..]);
    let packet = Connect::decode(&mut bytes);
    assert!(packet.is_err());
}

#[test]
fn test_encode_connectflags() {
    let connect_flag = ConnectFlags {
        user_name_flag: true,
        password_flag: false,
        will_retain: true,
        will_QoS: 3u8,
        will_flag: true,
        clean_session: false,
        reserved: true,
    };
    let encoded = connect_flag.encode().unwrap();
    assert_eq!(encoded, vec![0xBDu8]);
}

#[test]
fn test_encode_connect_packet() {
    let packet = Connect::with_level("MQTT", "123", 4).unwrap();

    let vec = packet.encode().unwrap();
    let mut bytes = BytesMut::from(&vec[..]);
    let decoded = Connect::decode(&mut bytes);
    assert!(decoded.is_ok());
    assert_eq!(decoded.unwrap().encode().unwrap(), vec);
}

#[test]
fn test_disconnect_encode_decode() {
    let packet = Disconnect::new();
    let vecbytes = packet.encode().unwrap();

    let mut bytes = BytesMut::from(&vecbytes[..]);
    let result = Disconnect::decode(&mut bytes);
    assert!(result.is_ok());
}

#[test]
fn test_fixheader() {
    let vec = vec![241u8, 0xFF, 0xFF, 0xFF, 0x8f];
    let b = BytesMut::from(&vec[..]);
    let result = get_fixheader(&b);
    assert!(result.is_err());
}

#[test]
fn test_pingreq_encode_decode() {
    let packet = PingReq::new();
    let vecbytes = packet.encode().unwrap();

    println!("{:?}", vecbytes);

    let mut bytes = BytesMut::from(&vecbytes[..]);
    let result = PingReq::decode(&mut bytes);
    println!("{:?}", result);
    assert!(result.is_ok());
}

#[test]
fn test_pingresp_encode_decode() {
    let packet = PingResp::new();
    let vecbytes = packet.encode().unwrap();

    let mut bytes = BytesMut::from(&vecbytes[..]);
    let result = PingResp::decode(&mut bytes);
    assert!(result.is_ok());
}

#[test]
fn test_encode_decode_pubComp() {
    let pubcomp = PubComp::new();
    let vec = pubcomp.encode().unwrap();

    let mut bytes = BytesMut::from(&vec[..]);
    let result = PubComp::decode(&mut bytes);
    println!("{:?}", result);
    assert!(result.is_ok());
}

#[test]
fn test_encode_decode_publish_header() {
    let publish = PublishFixedHeader {
        packet_type: 3,
        dup_flag: false,
        qos_level: 0,
        retain: false,
        remaining_length: 0,
    };
    let bytes = encode_fixedheader(publish.packet_type, 0, publish.remaining_length);
    assert_eq!(bytes.unwrap(), vec![0x30, 0x00]);
}

#[test]
fn test_encode_decode_publish() {
    let publish = Publish::new();
    let bytes = publish.encode().unwrap();

    let mut bytesmut = BytesMut::from(&bytes[..]);
    let decoded = Publish::decode(&mut bytesmut);
    assert!(decoded.is_ok());
    assert_eq!(decoded.unwrap().encode().unwrap(), bytes);
}

#[test]
fn test_encode_decode_pubrec() {
    let pubrec = PubRec::new();
    let vec = pubrec.encode().unwrap();

    let mut bytes = BytesMut::from(&vec[..]);
    let result = PubRec::decode(&mut bytes);
    assert!(result.is_ok());
}

#[test]
fn test_suback_encode_decode() {
    let suback = SubAck::new();
    let vecbyte = suback.encode().unwrap();

    let mut byte = BytesMut::from(&vecbyte[..]);
    let result = SubAck::decode(&mut byte);
    assert!(result.is_ok());
    assert_eq!(result.unwrap().encode().unwrap(), vecbyte);
}

#[test]
fn test_subscribe_encode_decode() {
    let subscribe = Subscribe::new();
    let vecbytes = subscribe.encode();

    let mut bytes = BytesMut::from(&vecbytes.unwrap()[..]);
    let result = Subscribe::decode(&mut bytes);
    assert!(result.is_ok());
    assert_eq!(result.unwrap().encode().unwrap(), subscribe.encode().unwrap());
}

#[test]
fn test_unsuback_encode_decode() {
    let unsuback = UnSubAck::new();
    let vecbytes = unsuback.encode().unwrap();

    let mut bytes = BytesMut::from(&vecbytes[..]);
    let result = UnSubAck::decode(&mut bytes);
    assert!(result.is_ok());
}

#[test]
fn test_unsubscribe_encode_decode() {
    let unsubscribe = Unsubscribe::new();
    let vecbytes = unsubscribe.encode().unwrap();

    let mut bytes = BytesMut::from(&vecbytes[..]);
    let result = Unsubscribe::decode(&mut bytes);
    assert!(result.is_ok());
    assert_eq!(result.unwrap().encode().unwrap(), vecbytes);
}

#[test]
fn test_repr_decode_encode() {
    let return_code = SubscribeReturnCode::MaximumQos1;
    let vec = return_code.encode();
    assert_eq!(vec.unwrap(), vec![0x01]);
}
