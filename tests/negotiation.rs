use airplay::dto::{
    SetupRequest, SetupResponse, StreamId, StreamRequest, StreamResponse, Teardown, TimingProtocol,
};
use airplay::fields::{DecodeError, Field};
use airplay::info::{Display, InfoResponse};
use airplay::value::{Dictionary, Value};

fn dict(entries: Vec<(&str, Value)>) -> Dictionary {
    let mut d = Dictionary::new();
    for (k, v) in entries {
        d.insert(k, v);
    }
    d
}

fn num(n: i128) -> Value {
    Value::Integer(n)
}

fn text(s: &str) -> Value {
    Value::String(s.to_string())
}

fn realtime_fields(ty: i128) -> Vec<(&'static str, Value)> {
    vec![
        ("type", num(ty)),
        ("ct", num(2)),
        ("audioFormat", num(0x40000)),
        ("spf", num(352)),
        ("sr", num(44100)),
        ("latencyMin", num(11025)),
        ("latencyMax", num(88200)),
        ("controlPort", num(6001)),
    ]
}

fn int_at(d: &Dictionary, i: usize) -> (String, i128) {
    match &d.entries[i] {
        (k, Value::Integer(n)) => (k.clone(), *n),
        _ => panic!("not an integer entry"),
    }
}

fn keys(d: &Dictionary) -> Vec<String> {
    d.entries.iter().map(|(k, _)| k.clone()).collect()
}

#[test]
fn decodes_realtime_request() {
    let v = Value::Dictionary(dict(realtime_fields(96)));
    match StreamRequest::decode(&v) {
        Ok(StreamRequest::AudioRealtime(r)) => {
            assert_eq!(r.content_type, 2);
            assert_eq!(r.audio_format, 0x40000);
            assert_eq!(r.samples_per_frame, 352);
            assert_eq!(r.sample_rate, 44100);
            assert_eq!(r.min_latency_samples, 11025);
            assert_eq!(r.max_latency_samples, 88200);
            assert_eq!(r.remote_control_port, 6001);
        }
        _ => panic!("expected a realtime audio request"),
    }
}

#[test]
fn unknown_stream_type_is_named() {
    let v = Value::Dictionary(dict(realtime_fields(999)));
    assert!(matches!(StreamRequest::decode(&v), Err(DecodeError::UnknownStreamType(999))));
}

#[test]
fn missing_and_invalid_type() {
    let v = Value::Dictionary(dict(vec![("ct", num(2))]));
    assert!(matches!(StreamRequest::decode(&v), Err(DecodeError::MissingField(Field::Type))));
    let v = Value::Dictionary(dict(vec![("type", text("96"))]));
    assert!(matches!(StreamRequest::decode(&v), Err(DecodeError::InvalidType(Field::Type))));
    let v = Value::Dictionary(dict(vec![("type", num(-1))]));
    assert!(matches!(StreamRequest::decode(&v), Err(DecodeError::InvalidType(Field::Type))));
    assert!(matches!(StreamRequest::decode(&num(96)), Err(DecodeError::NotADictionary)));
}

#[test]
fn realtime_field_errors() {
    let mut fields = realtime_fields(96);
    fields.retain(|(k, _)| *k != "sr");
    let v = Value::Dictionary(dict(fields));
    assert!(matches!(StreamRequest::decode(&v), Err(DecodeError::MissingField(Field::SampleRate))));
    let mut fields = realtime_fields(96);
    fields[1] = ("ct", num(256));
    let v = Value::Dictionary(dict(fields));
    assert!(matches!(StreamRequest::decode(&v), Err(DecodeError::InvalidType(Field::ContentType))));
}

#[test]
fn decodes_buffered_request() {
    let v = Value::Dictionary(dict(vec![
        ("type", num(103)),
        ("ct", num(8)),
        ("audioFormat", num(0x1000000)),
        ("spf", num(1024)),
        ("shk", Value::Data(vec![1, 2, 3, 4])),
        ("clientID", text("client")),
    ]));
    match StreamRequest::decode(&v) {
        Ok(StreamRequest::AudioBuffered(r)) => {
            assert_eq!(r.content_type, 8);
            assert_eq!(r.audio_format, 0x1000000);
            assert_eq!(r.audio_format_index, None);
            assert_eq!(r.samples_per_frame, 1024);
            assert_eq!(r.shared_key, vec![1, 2, 3, 4]);
            assert_eq!(r.client_id, Some("client".to_string()));
        }
        _ => panic!("expected a buffered audio request"),
    }
    let v = Value::Dictionary(dict(vec![
        ("type", num(103)),
        ("ct", num(8)),
        ("audioFormat", num(1)),
        ("spf", num(1024)),
        ("shk", text("not bytes")),
    ]));
    assert!(matches!(StreamRequest::decode(&v), Err(DecodeError::InvalidType(Field::SharedKey))));
}

#[test]
fn decodes_video_request() {
    let v = Value::Dictionary(dict(vec![
        ("type", num(110)),
        ("streamConnectionID", num(-42)),
        ("latencyMs", num(100)),
    ]));
    match StreamRequest::decode(&v) {
        Ok(StreamRequest::Video(r)) => {
            assert_eq!(r.stream_connection_id, -42);
            assert_eq!(r.latency_ms, 100);
        }
        _ => panic!("expected a video request"),
    }
}

#[test]
fn setup_with_streams_key_is_a_stream_list() {
    let v = Value::Dictionary(dict(vec![(
        "streams",
        Value::Array(vec![
            Value::Dictionary(dict(realtime_fields(96))),
            Value::Dictionary(dict(vec![
                ("type", num(110)),
                ("streamConnectionID", num(7)),
                ("latencyMs", num(5)),
            ])),
        ]),
    )]));
    match SetupRequest::decode(&v) {
        Ok(SetupRequest::Streams { requests }) => {
            assert_eq!(requests.len(), 2);
            assert!(matches!(requests[0], StreamRequest::AudioRealtime(_)));
            assert!(matches!(requests[1], StreamRequest::Video(_)));
        }
        _ => panic!("expected a stream list"),
    }
    let v = Value::Dictionary(dict(vec![(
        "streams",
        Value::Array(vec![
            Value::Dictionary(dict(realtime_fields(96))),
            Value::Dictionary(dict(realtime_fields(5))),
        ]),
    )]));
    assert!(matches!(SetupRequest::decode(&v), Err(DecodeError::UnknownStreamType(5))));
    let v = Value::Dictionary(dict(vec![("streams", num(1))]));
    assert!(matches!(SetupRequest::decode(&v), Err(DecodeError::InvalidType(Field::Streams))));
}

fn sender_fields(proto: &str) -> Vec<(&'static str, Value)> {
    vec![
        ("name", text("phone")),
        ("model", text("iPhone10,6")),
        ("deviceID", text("AA:BB:CC:DD:EE:FF")),
        ("macAddress", text("AA:BB:CC:DD:EE:00")),
        ("osName", text("iPhone OS")),
        ("ekey", Value::Data(vec![9; 72])),
        ("eiv", Value::Data(vec![7; 16])),
        ("timingProtocol", text(proto)),
        ("timingPort", num(7010)),
    ]
}

#[test]
fn setup_without_streams_key_is_sender_info() {
    let v = Value::Dictionary(dict(sender_fields("NTP")));
    match SetupRequest::decode(&v) {
        Ok(SetupRequest::SenderInfo(info)) => {
            assert_eq!(info.name, "phone");
            assert_eq!(info.model, "iPhone10,6");
            assert_eq!(info.device_id, "AA:BB:CC:DD:EE:FF");
            assert_eq!(info.mac_addr, "AA:BB:CC:DD:EE:00");
            assert_eq!(info.os_name, Some("iPhone OS".to_string()));
            assert_eq!(info.os_version, None);
            assert_eq!(info.ekey, vec![9; 72]);
            assert_eq!(info.eiv, vec![7; 16]);
            assert!(matches!(info.timing_proto, TimingProtocol::Ntp { remote_port: 7010 }));
        }
        _ => panic!("expected sender information"),
    }
    let v = Value::Dictionary(dict(sender_fields("PTP")));
    match SetupRequest::decode(&v) {
        Ok(SetupRequest::SenderInfo(info)) => {
            assert!(matches!(info.timing_proto, TimingProtocol::Ptp));
        }
        _ => panic!("expected sender information"),
    }
    let v = Value::Dictionary(dict(sender_fields("GPS")));
    assert!(matches!(
        SetupRequest::decode(&v),
        Err(DecodeError::UnknownVariant(Field::TimingProtocol))
    ));
}

#[test]
fn encodes_realtime_response_without_buffer_size() {
    let r = StreamResponse::AudioRealtime { id: 5, local_data_port: 7000, local_control_port: 7001 };
    let d = r.encode();
    assert_eq!(d.entries.len(), 4);
    assert_eq!(int_at(&d, 0), ("type".to_string(), 96));
    assert_eq!(int_at(&d, 1), ("streamID".to_string(), 5));
    assert_eq!(int_at(&d, 2), ("dataPort".to_string(), 7000));
    assert_eq!(int_at(&d, 3), ("controlPort".to_string(), 7001));
    assert!(d.get("audioBufferSize").is_none());
}

#[test]
fn encodes_buffered_and_video_responses() {
    let d = StreamResponse::AudioBuffered { id: 6, local_data_port: 7100, audio_buffer_size: 8388608 }
        .encode();
    assert_eq!(keys(&d), vec!["type", "streamID", "dataPort", "audioBufferSize"]);
    assert_eq!(int_at(&d, 0).1, 103);
    assert_eq!(int_at(&d, 3).1, 8388608);
    assert!(d.get("controlPort").is_none());
    let d = StreamResponse::Video { id: 7, local_data_port: 7200 }.encode();
    assert_eq!(keys(&d), vec!["type", "streamID", "dataPort"]);
    assert_eq!(int_at(&d, 0).1, 110);
    assert_eq!(int_at(&d, 1).1, 7);
    assert_eq!(int_at(&d, 2).1, 7200);
    assert!(d.get("controlPort").is_none());
    assert!(d.get("audioBufferSize").is_none());
}

#[test]
fn encodes_setup_responses() {
    match (SetupResponse::Info { event_port: 6000, timing_port: 0 }).encode() {
        Value::Dictionary(d) => {
            assert_eq!(int_at(&d, 0), ("eventPort".to_string(), 6000));
            assert_eq!(int_at(&d, 1), ("timingPort".to_string(), 0));
        }
        _ => panic!("expected a dictionary"),
    }
    let resp = SetupResponse::Streams {
        responses: vec![StreamResponse::Video { id: 1, local_data_port: 7300 }],
    };
    match resp.encode() {
        Value::Dictionary(d) => {
            assert_eq!(keys(&d), vec!["streams"]);
            match &d.entries[0].1 {
                Value::Array(items) => {
                    assert_eq!(items.len(), 1);
                    match &items[0] {
                        Value::Dictionary(s) => assert_eq!(int_at(s, 2).1, 7300),
                        _ => panic!("expected a dictionary"),
                    }
                }
                _ => panic!("expected an array"),
            }
        }
        _ => panic!("expected a dictionary"),
    }
}

#[test]
fn teardown_without_list_ends_session() {
    let t = Teardown::decode(&Value::Dictionary(Dictionary::new())).ok().unwrap();
    assert!(t.requests.is_none());
    let v = Value::Dictionary(dict(vec![(
        "streams",
        Value::Array(vec![Value::Dictionary(dict(vec![("streamID", num(3)), ("type", num(110))]))]),
    )]));
    let t = Teardown::decode(&v).ok().unwrap();
    let reqs = t.requests.unwrap();
    assert_eq!(reqs.len(), 1);
    assert_eq!(reqs[0].id, Some(3));
    assert_eq!(reqs[0].ty, StreamId::VIDEO);
    let v = Value::Dictionary(dict(vec![(
        "streams",
        Value::Array(vec![Value::Dictionary(dict(vec![("streamID", num(3))]))]),
    )]));
    assert!(matches!(Teardown::decode(&v), Err(DecodeError::MissingField(Field::Type))));
}

#[test]
fn stream_id_tags() {
    assert_eq!(StreamId::AUDIO_REALTIME, 96);
    assert_eq!(StreamId::AUDIO_BUFFERED, 103);
    assert_eq!(StreamId::VIDEO, 110);
}

#[test]
fn encodes_info_with_colon_separated_addresses() {
    let info = InfoResponse {
        device_id: [0xAC, 0xDE, 0x48, 0x23, 0x45, 0x67],
        mac_addr: [0x00, 0x01, 0x0a, 0xff, 0x10, 0x9b],
        features: 0x1c340405fca00,
        manufacturer: "maker".to_string(),
        model: "Receiver1,1".to_string(),
        name: "living room".to_string(),
        protocol_version: "1.1".to_string(),
        source_version: "366.0".to_string(),
        displays: vec![Display { width: 1920, height: 1080, uuid: "u-1".to_string(), max_fps: 60, features: 14 }],
    };
    let d = info.encode();
    assert_eq!(
        keys(&d),
        vec![
            "deviceid", "macAddress", "features", "manufacturer", "model", "name",
            "protocolVersion", "sourceVersion", "displays"
        ]
    );
    match (&d.entries[0].1, &d.entries[1].1) {
        (Value::String(a), Value::String(b)) => {
            assert_eq!(a, "AC:DE:48:23:45:67");
            assert_eq!(b, "00:01:0A:FF:10:9B");
        }
        _ => panic!("expected strings"),
    }
    assert_eq!(int_at(&d, 2).1, 0x1c340405fca00);
    match &d.entries[8].1 {
        Value::Array(items) => match &items[0] {
            Value::Dictionary(s) => {
                assert_eq!(keys(s), vec!["widthPixels", "heightPixels", "uuid", "maxFPS", "features"]);
                assert_eq!(int_at(s, 0).1, 1920);
                assert_eq!(int_at(s, 3).1, 60);
            }
            _ => panic!("expected a dictionary"),
        },
        _ => panic!("expected an array"),
    }
}
