use bytes::BytesMut;
use rocketmq_remoting::cmd::broker::BrokerCommand;
use rocketmq_remoting::cmd::command::{
    CommandCoderc, CustomHeader, GetTopicStatsInfoHeader, Header, LanguageCode, RemotingCommand,
    RequestCode, TopicConsumerByWhoHeader, TopicRouteInfoRequestHeader,
};
use rocketmq_remoting::cmd::fields::ExtFields;
use rocketmq_remoting::error::{DecodeError, HeaderDecodeError, ProtocolError};
use rocketmq_remoting::wire::WireFrame;
use rocketmq_remoting::remoting::command::Command;

#[test]
fn request_code_stability() {
    assert_eq!(RequestCode::SendMessage.code(), 10);
    assert_eq!(RequestCode::PullMessage.code(), 11);
    assert_eq!(RequestCode::HeartBeat.code(), 34);
    assert_eq!(RequestCode::GetBrokerRuntimeInfo.code(), 28);
    assert_eq!(RequestCode::GetRouteInfoByTopic.code(), 105);
    assert_eq!(RequestCode::GetBrokerClusterInfo.code(), 106);
    assert_eq!(RequestCode::GetAllTopicListFromNameserver.code(), 206);
    assert_eq!(RequestCode::QueryTopicConsumeByWho.code(), 300);
    assert_eq!(RequestCode::GetTopicsByCluster.code(), 224);
    assert_eq!(RequestCode::DeleteExpiredCommitLog.code(), 329);
    assert_eq!(RequestCode::SendMessage.code(), RequestCode::SendMessage.code());
}

#[test]
fn header_new_and_encode() {
    let header = Header::new(RequestCode::GetBrokerClusterInfo);
    assert_eq!(header.code(), 106);
    assert_eq!(header.flag(), 0);
    assert_eq!(header.opaque(), 1);
    assert_eq!(header.version(), 317);
    assert_eq!(header.language(), LanguageCode::RUST);
    assert_eq!(header.serialize_type_current_rpc(), "");
    assert_eq!(header.remark(), "");
    assert_eq!(header.ext_fields().len(), 0);
    assert_eq!(
        header.encode(),
        r#"{"code":106,"flag":0,"language":"RUST","opaque":1,"serializeTypeCurrentRPC":"","version":317,"extFields":{}}"#
    );
}

#[test]
fn header_build_and_round_trip() {
    let command = RemotingCommand::build(
        RequestCode::GetRouteInfoByTopic,
        Some(TopicRouteInfoRequestHeader::new("Topic\"A\\".to_string())),
    );
    let text = command.header().encode();
    assert_eq!(
        text,
        r#"{"code":105,"flag":0,"language":"RUST","opaque":1,"serializeTypeCurrentRPC":"","version":317,"extFields":{"topic":"Topic\"A\\"}}"#
    );
    let header = Header::parse(text).unwrap();
    assert_eq!(header.code(), 105);
    assert_eq!(header.version(), 317);
    assert_eq!(header.opaque(), 1);
    assert_eq!(header.ext_fields().len(), 1);
    assert_eq!(header.ext_fields().get("topic"), Some(&"Topic\"A\\".to_string()));
    assert_eq!(header.ext_fields().get("other"), None);
}

#[test]
fn header_parse_rules() {
    // unknown members are ignored, extFields may be absent, a language that is not known is RUST
    let header = Header::parse(
        r#"{"code":0,"flag":1,"language":"CPP","opaque":7,"serializeTypeCurrentRPC":"JSON","version":399,"remark":"ok","more":[1,2.5,null]}"#
            .to_string(),
    )
    .unwrap();
    assert_eq!(header.code(), 0);
    assert_eq!(header.flag(), 1);
    assert_eq!(header.language(), LanguageCode::RUST);
    assert_eq!(header.opaque(), 7);
    assert_eq!(header.serialize_type_current_rpc(), "JSON");
    assert_eq!(header.version(), 399);
    assert_eq!(header.remark(), "ok");
    assert_eq!(header.ext_fields().len(), 0);
    let java = Header::parse(
        r#"{"code":0,"flag":1,"language":"JAVA","opaque":7,"serializeTypeCurrentRPC":"JSON","version":399}"#
            .to_string(),
    )
    .unwrap();
    assert_eq!(java.language(), LanguageCode::JAVA);
    assert_eq!(Header::parse("{code:1".to_string()).err(), Some(HeaderDecodeError::Syntax));
    assert_eq!(Header::parse(r#"{"code":1}"#.to_string()).err(), Some(HeaderDecodeError::Field));
    // a number too large for the field
    assert_eq!(
        Header::parse(
            r#"{"code":2147483648,"flag":1,"language":"JAVA","opaque":7,"serializeTypeCurrentRPC":"JSON","version":399}"#
                .to_string()
        )
        .err(),
        Some(HeaderDecodeError::Field)
    );
    // an extension field that is no text
    assert_eq!(
        Header::parse(
            r#"{"code":1,"flag":1,"language":"JAVA","opaque":7,"serializeTypeCurrentRPC":"JSON","version":399,"extFields":{"a":1}}"#
                .to_string()
        )
        .err(),
        Some(HeaderDecodeError::Field)
    );
}

#[test]
fn frame_round_trip() {
    for body_len in [0usize, 1, 2, 255, 256, 70000] {
        let mut command = RemotingCommand::build(
            RequestCode::GetRouteInfoByTopic,
            Some(TopicRouteInfoRequestHeader::new("TopicTest".to_string())),
        );
        let mut header = Header::new(RequestCode::GetRouteInfoByTopic);
        header.put_ext_field("topic".to_string(), "TopicTest".to_string());
        header.put_ext_field("k".to_string(), "v".to_string());
        header.put_ext_field("topic".to_string(), "Other".to_string());
        let body: String = "x".repeat(body_len);
        command = RemotingCommand::with_body(header, body.clone());
        let mut codec = CommandCoderc::new();
        let mut wire = BytesMut::new();
        codec.encode(command, &mut wire).unwrap();
        wire.extend_from_slice(b"next");
        let decoded = codec.decode(&mut wire).unwrap().unwrap();
        assert_eq!(&wire[..], b"next");
        assert_eq!(decoded.header().code(), 105);
        assert_eq!(decoded.header().version(), 317);
        assert_eq!(decoded.header().opaque(), 1);
        assert_eq!(decoded.header().ext_fields().len(), 2);
        assert_eq!(decoded.header().ext_fields().get("topic"), Some(&"Other".to_string()));
        assert_eq!(decoded.header().ext_fields().get("k"), Some(&"v".to_string()));
        assert_eq!(decoded.body(), body);
    }
}

#[test]
fn wire_layout() {
    let frame = WireFrame { type_tag: 0, header: b"{}".to_vec(), body: b"abc".to_vec() };
    let mut wire = BytesMut::new();
    frame.encode(&mut wire).unwrap();
    assert_eq!(&wire[..], &[0, 0, 0, 9, 0, 0, 0, 2, b'{', b'}', b'a', b'b', b'c']);
    let long = WireFrame { type_tag: 0, header: vec![b' '; 0x01_02_03], body: Vec::new() };
    let mut wire = BytesMut::new();
    long.encode(&mut wire).unwrap();
    assert_eq!(&wire[..8], &[0, 1, 2, 7, 0, 1, 2, 3]);
    let decoded = WireFrame::decode(&mut wire, 1 << 20).unwrap().unwrap();
    assert_eq!(decoded.header.len(), 0x01_02_03);
    assert_eq!(decoded.body.len(), 0);
    assert_eq!(wire.len(), 0);
}

#[test]
fn incremental_decode() {
    let command = RemotingCommand::new(RequestCode::GetBrokerClusterInfo);
    let mut codec = CommandCoderc::new();
    let mut wire = BytesMut::new();
    codec.encode(command, &mut wire).unwrap();
    let whole = wire.to_vec();
    for k in 0..whole.len() {
        let mut prefix = BytesMut::from(&whole[..k]);
        assert!(codec.decode(&mut prefix).unwrap().is_none());
        assert_eq!(&prefix[..], &whole[..k]);
    }
    let mut all = BytesMut::from(&whole[..]);
    let decoded = codec.decode(&mut all).unwrap().unwrap();
    assert_eq!(decoded.header().code(), 106);
    assert!(all.is_empty());
}

#[test]
fn oversized_rejection() {
    let mut codec = CommandCoderc::with_max_size(16);
    let mut wire = BytesMut::from(&[0u8, 0, 0, 17][..]);
    assert_eq!(
        codec.decode(&mut wire).err(),
        Some(DecodeError::Protocol(ProtocolError::Oversized))
    );
    assert_eq!(&wire[..], &[0, 0, 0, 17]);
    let mut at_limit = BytesMut::from(&[0u8, 0, 0, 16][..]);
    assert!(codec.decode(&mut at_limit).unwrap().is_none());
}

#[test]
fn malformed_frames() {
    let mut codec = CommandCoderc::new();
    // a payload too short for the packed field
    let mut short = BytesMut::from(&[0u8, 0, 0, 2, 1, 2][..]);
    assert_eq!(
        codec.decode(&mut short).err(),
        Some(DecodeError::Protocol(ProtocolError::Malformed))
    );
    assert_eq!(short.len(), 6);
    // a header longer than the frame
    let mut overrun = BytesMut::from(&[0u8, 0, 0, 5, 0, 0, 0, 2, b'{'][..]);
    assert_eq!(
        codec.decode(&mut overrun).err(),
        Some(DecodeError::Protocol(ProtocolError::Malformed))
    );
    // a header that is no JSON: the frame is taken out
    let mut bad = BytesMut::from(&[0u8, 0, 0, 5, 0, 0, 0, 1, b'{', 9][..]);
    assert_eq!(
        codec.decode(&mut bad).err(),
        Some(DecodeError::Header(HeaderDecodeError::Syntax))
    );
    assert_eq!(&bad[..], &[9]);
}

#[test]
fn remoting_command_payload() {
    let command = RemotingCommand::new(RequestCode::GetAllTopicListFromNameserver);
    let payload = command.encode_no_length().unwrap();
    let text = command.header().encode();
    assert_eq!(payload[0], 0);
    assert_eq!(&payload[1..4], &[0, 0, text.len() as u8]);
    assert_eq!(&payload[4..], text.as_bytes());
    let parsed = RemotingCommand::parse(&payload).unwrap();
    assert_eq!(parsed.header().code(), 206);
    assert_eq!(parsed.body(), "");
    assert!(!parsed.is_success());
}

#[test]
fn broker_command_and_numbered_command() {
    let broker = BrokerCommand::new();
    assert_eq!(
        broker.encode(),
        r#"{"code":106,"language":"GO","version":317,"opaque":1,"flag":0,"remark":"","ext_fields":{}}"#
    );
    let bytes = broker.into_bytes().unwrap();
    let text = broker.encode();
    assert_eq!(&bytes[..4], &((text.len() + 4) as u32).to_be_bytes());
    assert_eq!(&bytes[4..8], &(text.len() as u32).to_be_bytes());
    assert_eq!(&bytes[8..], text.as_bytes());
    let command = Command::new(28, "body".to_string());
    assert_eq!(
        command.encode(),
        r#"{"code":28,"language":7,"version":317,"opaque":1,"flag":1,"remark":"","ext_fields":{}}"#
    );
    assert_eq!(command.body(), "body");
}

#[test]
fn body_that_is_no_text() {
    let frame = WireFrame {
        type_tag: 0,
        header: Header::new(RequestCode::HeartBeat).encode().into_bytes(),
        body: vec![0xff, 0xfe],
    };
    assert_eq!(
        RemotingCommand::from_frame(frame).err(),
        Some(DecodeError::Body(rocketmq_remoting::error::BodyDecodeError::Encoding))
    );
    let frame = WireFrame {
        type_tag: 0,
        header: Header::new(RequestCode::HeartBeat).encode().into_bytes(),
        body: "héllo".as_bytes().to_vec(),
    };
    let command = RemotingCommand::from_frame(frame).unwrap();
    assert_eq!(command.body(), "héllo");
    assert_eq!(command.header().code(), 34);
    let again = command.to_frame();
    assert_eq!(again.body, "héllo".as_bytes());
    assert_eq!(again.type_tag, 0);
}

#[test]
fn lengths_that_do_not_fit() {
    let long = WireFrame { type_tag: 0, header: vec![b' '; 0x100_0000], body: Vec::new() };
    let mut wire = BytesMut::new();
    assert_eq!(long.encode(&mut wire).err(), Some(ProtocolError::HeaderTooLong));
    assert!(wire.is_empty());
    assert_eq!(long.payload().err(), Some(ProtocolError::HeaderTooLong));
    let fits = WireFrame { type_tag: 0, header: vec![b' '; 0xFF_FFFF], body: Vec::new() };
    assert_eq!(fits.payload().unwrap().len(), 0x100_0003);
}

#[test]
fn custom_headers() {
    let topic = ("topic".to_string(), "T".to_string());
    assert_eq!(TopicRouteInfoRequestHeader::new("T".to_string()).encode(), vec![topic.clone()]);
    assert_eq!(GetTopicStatsInfoHeader::new("T".to_string()).encode(), vec![topic.clone()]);
    assert_eq!(TopicConsumerByWhoHeader::new("T".to_string()).encode(), vec![topic.clone()]);
    let none: Option<TopicRouteInfoRequestHeader> = None;
    let plain = RemotingCommand::build(RequestCode::GetBrokerClusterInfo, none);
    assert_eq!(plain.header().ext_fields().len(), 0);
    assert_eq!(plain.header().code(), 106);
    assert_eq!(plain.body(), "");
}

#[test]
fn ext_fields_keep_each_name_once() {
    let mut fields = ExtFields::new();
    fields.insert("a".to_string(), "1".to_string());
    fields.insert("b".to_string(), "2".to_string());
    fields.insert("a".to_string(), "3".to_string());
    assert_eq!(fields.len(), 2);
    assert_eq!(
        fields.entries(),
        &vec![("a".to_string(), "3".to_string()), ("b".to_string(), "2".to_string())]
    );
    assert_eq!(fields.get("a"), Some(&"3".to_string()));
    assert_eq!(fields.get("c"), None);
}

#[test]
fn language_names() {
    assert_eq!(LanguageCode::JAVA.as_str(), "JAVA");
    assert_eq!(LanguageCode::GO.as_str(), "GO");
    assert_eq!(LanguageCode::RUST.as_str(), "RUST");
    assert_eq!(LanguageCode::from_name("GO"), LanguageCode::GO);
    assert_eq!(LanguageCode::from_name("JAVA"), LanguageCode::JAVA);
    assert_eq!(LanguageCode::from_name("java"), LanguageCode::RUST);
}
