//! The stream negotiation model: SETUP and TEARDOWN requests and responses.

use vstd::prelude::*;
use crate::fields::{
    DecodeError, Field, first_error, int_check, opt_int_check, text_check, opt_text_check,
    data_check, read_int, read_opt_int, read_text, read_opt_text, read_data,
};
use crate::value::{Dictionary, Value, lemma_lookup_absent};

verus! {

pub const U8_MAX: i128 = 0xff;
pub const U16_MAX: i128 = 0xffff;
pub const U32_MAX: i128 = 0xffff_ffff;
pub const U64_MAX: i128 = 0xffff_ffff_ffff_ffff;
pub const I64_MIN: i128 = -0x8000_0000_0000_0000;
pub const I64_MAX: i128 = 0x7fff_ffff_ffff_ffff;

/// The numeric tags of the stream kinds.
pub struct StreamId;

impl StreamId {
    pub const AUDIO_REALTIME: u32 = 96;
    pub const AUDIO_BUFFERED: u32 = 103;
    pub const VIDEO: u32 = 110;
}

pub struct AudioRealtimeRequest {
    pub content_type: u8,
    pub audio_format: u32,
    pub samples_per_frame: u32,
    pub sample_rate: u32,
    pub min_latency_samples: u32,
    pub max_latency_samples: u32,
    pub remote_control_port: u16,
}

/// Decoding a realtime audio stream request from its dictionary.
pub open spec fn realtime_spec(d: Dictionary) -> Result<AudioRealtimeRequest, DecodeError> {
    let ct = int_check(d, Field::ContentType, 0, U8_MAX);
    let fmt = int_check(d, Field::AudioFormat, 0, U32_MAX);
    let spf = int_check(d, Field::SamplesPerFrame, 0, U32_MAX);
    let sr = int_check(d, Field::SampleRate, 0, U32_MAX);
    let lmin = int_check(d, Field::LatencyMin, 0, U32_MAX);
    let lmax = int_check(d, Field::LatencyMax, 0, U32_MAX);
    let port = int_check(d, Field::ControlPort, 0, U16_MAX);
    match first_error(ct, first_error(fmt, first_error(spf, first_error(sr,
        first_error(lmin, first_error(lmax, first_error(port, Ok(()))))))))
    {
        Err(e) => Err(e),
        Ok(_) => Ok(AudioRealtimeRequest {
            content_type: ct->Ok_0 as u8,
            audio_format: fmt->Ok_0 as u32,
            samples_per_frame: spf->Ok_0 as u32,
            sample_rate: sr->Ok_0 as u32,
            min_latency_samples: lmin->Ok_0 as u32,
            max_latency_samples: lmax->Ok_0 as u32,
            remote_control_port: port->Ok_0 as u16,
        }),
    }
}

impl AudioRealtimeRequest {
    pub fn decode(d: &Dictionary) -> (r: Result<AudioRealtimeRequest, DecodeError>)
        ensures
            r == realtime_spec(*d),
    {
        let ct = read_int(d, Field::ContentType, 0, U8_MAX)?;
        let fmt = read_int(d, Field::AudioFormat, 0, U32_MAX)?;
        let spf = read_int(d, Field::SamplesPerFrame, 0, U32_MAX)?;
        let sr = read_int(d, Field::SampleRate, 0, U32_MAX)?;
        let lmin = read_int(d, Field::LatencyMin, 0, U32_MAX)?;
        let lmax = read_int(d, Field::LatencyMax, 0, U32_MAX)?;
        let port = read_int(d, Field::ControlPort, 0, U16_MAX)?;
        Ok(AudioRealtimeRequest {
            content_type: ct as u8,
            audio_format: fmt as u32,
            samples_per_frame: spf as u32,
            sample_rate: sr as u32,
            min_latency_samples: lmin as u32,
            max_latency_samples: lmax as u32,
            remote_control_port: port as u16,
        })
    }
}

pub struct AudioBufferedRequest {
    pub content_type: u8,
    pub audio_format: u32,
    pub audio_format_index: Option<u8>,
    pub samples_per_frame: u32,
    pub shared_key: Vec<u8>,
    pub client_id: Option<String>,
}

/// The first error met when decoding a buffered audio stream request, if any.
pub open spec fn buffered_outcome(d: Dictionary) -> Result<(), DecodeError> {
    first_error(int_check(d, Field::ContentType, 0, U8_MAX),
    first_error(int_check(d, Field::AudioFormat, 0, U32_MAX),
    first_error(opt_int_check(d, Field::AudioFormatIndex, 0, U8_MAX),
    first_error(int_check(d, Field::SamplesPerFrame, 0, U32_MAX),
    first_error(data_check(d, Field::SharedKey),
    first_error(opt_text_check(d, Field::ClientId), Ok(())))))))
}

/// Each field of `x` is the one read from `d`.
pub open spec fn buffered_fields(x: AudioBufferedRequest, d: Dictionary) -> bool {
    &&& int_check(d, Field::ContentType, 0, U8_MAX) == Ok::<i128, DecodeError>(x.content_type as i128)
    &&& int_check(d, Field::AudioFormat, 0, U32_MAX) == Ok::<i128, DecodeError>(x.audio_format as i128)
    &&& opt_int_check(d, Field::AudioFormatIndex, 0, U8_MAX) == Ok::<Option<i128>, DecodeError>(
        match x.audio_format_index {
            Some(i) => Some(i as i128),
            None => None,
        })
    &&& int_check(d, Field::SamplesPerFrame, 0, U32_MAX) == Ok::<i128, DecodeError>(x.samples_per_frame as i128)
    &&& data_check(d, Field::SharedKey) == Ok::<Seq<u8>, DecodeError>(x.shared_key@)
    &&& opt_text_check(d, Field::ClientId) == Ok::<Option<String>, DecodeError>(x.client_id)
}

impl AudioBufferedRequest {
    pub fn decode(d: &Dictionary) -> (r: Result<AudioBufferedRequest, DecodeError>)
        ensures
            match r {
                Ok(x) => buffered_outcome(*d) is Ok && buffered_fields(x, *d),
                Err(e) => buffered_outcome(*d) == Err::<(), DecodeError>(e),
            },
    {
        let ct = read_int(d, Field::ContentType, 0, U8_MAX)?;
        let fmt = read_int(d, Field::AudioFormat, 0, U32_MAX)?;
        let idx = read_opt_int(d, Field::AudioFormatIndex, 0, U8_MAX)?;
        let spf = read_int(d, Field::SamplesPerFrame, 0, U32_MAX)?;
        let shk = read_data(d, Field::SharedKey)?;
        let client = read_opt_text(d, Field::ClientId)?;
        let index = match idx {
            Some(i) => Some(i as u8),
            None => None,
        };
        Ok(AudioBufferedRequest {
            content_type: ct as u8,
            audio_format: fmt as u32,
            audio_format_index: index,
            samples_per_frame: spf as u32,
            shared_key: shk,
            client_id: client,
        })
    }
}

pub struct VideoRequest {
    pub stream_connection_id: i64,
    pub latency_ms: u32,
}

/// Decoding a video stream request from its dictionary.
pub open spec fn video_spec(d: Dictionary) -> Result<VideoRequest, DecodeError> {
    let id = int_check(d, Field::StreamConnectionId, I64_MIN, I64_MAX);
    let lat = int_check(d, Field::LatencyMs, 0, U32_MAX);
    match first_error(id, first_error(lat, Ok(()))) {
        Err(e) => Err(e),
        Ok(_) => Ok(VideoRequest { stream_connection_id: id->Ok_0 as i64, latency_ms: lat->Ok_0 as u32 }),
    }
}

impl VideoRequest {
    pub fn decode(d: &Dictionary) -> (r: Result<VideoRequest, DecodeError>)
        ensures
            r == video_spec(*d),
    {
        let id = read_int(d, Field::StreamConnectionId, I64_MIN, I64_MAX)?;
        let lat = read_int(d, Field::LatencyMs, 0, U32_MAX)?;
        Ok(VideoRequest { stream_connection_id: id as i64, latency_ms: lat as u32 })
    }
}

/// A request for one stream, selected by its `type` tag.
pub enum StreamRequest {
    AudioRealtime(AudioRealtimeRequest),
    AudioBuffered(AudioBufferedRequest),
    Video(VideoRequest),
}

/// The stream kind tag of a request node: its `type` field as an unsigned integer.
pub open spec fn stream_tag(v: Value) -> Result<u64, DecodeError> {
    match v {
        Value::Dictionary(d) => match int_check(d, Field::Type, 0, U64_MAX) {
            Ok(n) => Ok(n as u64),
            Err(e) => Err(e),
        },
        _ => Err(DecodeError::NotADictionary),
    }
}

/// `r` is what decoding the stream request node `v` gives: the tag is read
/// first, then the fields of the variant it selects.
pub open spec fn stream_request_decoded(r: Result<StreamRequest, DecodeError>, v: Value) -> bool {
    match stream_tag(v) {
        Err(e) => r == Err::<StreamRequest, DecodeError>(e),
        Ok(tag) => {
            let d = v->Dictionary_0;
            if tag == StreamId::AUDIO_REALTIME {
                match realtime_spec(d) {
                    Ok(x) => r == Ok::<StreamRequest, DecodeError>(StreamRequest::AudioRealtime(x)),
                    Err(e) => r == Err::<StreamRequest, DecodeError>(e),
                }
            } else if tag == StreamId::AUDIO_BUFFERED {
                match r {
                    Ok(StreamRequest::AudioBuffered(x)) => buffered_outcome(d) is Ok && buffered_fields(x, d),
                    Ok(_) => false,
                    Err(e) => buffered_outcome(d) == Err::<(), DecodeError>(e),
                }
            } else if tag == StreamId::VIDEO {
                match video_spec(d) {
                    Ok(x) => r == Ok::<StreamRequest, DecodeError>(StreamRequest::Video(x)),
                    Err(e) => r == Err::<StreamRequest, DecodeError>(e),
                }
            } else {
                r == Err::<StreamRequest, DecodeError>(DecodeError::UnknownStreamType(tag))
            }
        },
    }
}

impl StreamRequest {
    pub fn decode(v: &Value) -> (r: Result<StreamRequest, DecodeError>)
        ensures
            stream_request_decoded(r, *v),
    {
        let d = match v {
            Value::Dictionary(d) => d,
            _ => return Err(DecodeError::NotADictionary),
        };
        let tag = read_int(d, Field::Type, 0, U64_MAX)? as u64;
        if tag == StreamId::AUDIO_REALTIME as u64 {
            Ok(StreamRequest::AudioRealtime(AudioRealtimeRequest::decode(d)?))
        } else if tag == StreamId::AUDIO_BUFFERED as u64 {
            Ok(StreamRequest::AudioBuffered(AudioBufferedRequest::decode(d)?))
        } else if tag == StreamId::VIDEO as u64 {
            Ok(StreamRequest::Video(VideoRequest::decode(d)?))
        } else {
            Err(DecodeError::UnknownStreamType(tag))
        }
    }
}

/// The parameters assigned to one negotiated stream.
pub enum StreamResponse {
    AudioRealtime { id: u64, local_data_port: u16, local_control_port: u16 },
    AudioBuffered { id: u64, local_data_port: u16, audio_buffer_size: u32 },
    Video { id: u64, local_data_port: u16 },
}

/// Entry `e` carries `key` with the integer `n`.
pub open spec fn int_entry(e: (String, Value), key: Seq<char>, n: int) -> bool {
    e.0@ == key && e.1 == Value::Integer(n as i128)
}

impl StreamResponse {
    /// The encoded form: `type`, `streamID`, `dataPort`, then the one field
    /// that the kind defines; fields of other kinds are absent.
    pub open spec fn encoded(self, d: Dictionary) -> bool {
        let e = d.entries@;
        match self {
            StreamResponse::AudioRealtime { id, local_data_port, local_control_port } => {
                &&& e.len() == 4
                &&& int_entry(e[0], "type"@, StreamId::AUDIO_REALTIME as int)
                &&& int_entry(e[1], "streamID"@, id as int)
                &&& int_entry(e[2], "dataPort"@, local_data_port as int)
                &&& int_entry(e[3], "controlPort"@, local_control_port as int)
            },
            StreamResponse::AudioBuffered { id, local_data_port, audio_buffer_size } => {
                &&& e.len() == 4
                &&& int_entry(e[0], "type"@, StreamId::AUDIO_BUFFERED as int)
                &&& int_entry(e[1], "streamID"@, id as int)
                &&& int_entry(e[2], "dataPort"@, local_data_port as int)
                &&& int_entry(e[3], "audioBufferSize"@, audio_buffer_size as int)
            },
            StreamResponse::Video { id, local_data_port } => {
                &&& e.len() == 3
                &&& int_entry(e[0], "type"@, StreamId::VIDEO as int)
                &&& int_entry(e[1], "streamID"@, id as int)
                &&& int_entry(e[2], "dataPort"@, local_data_port as int)
            },
        }
    }

    pub fn encode(&self) -> (d: Dictionary)
        ensures
            self.encoded(d),
    {
        let mut d = Dictionary::new();
        match self {
            StreamResponse::AudioRealtime { id, local_data_port, local_control_port } => {
                d.insert("type", Value::Integer(StreamId::AUDIO_REALTIME as i128));
                d.insert("streamID", Value::Integer(*id as i128));
                d.insert("dataPort", Value::Integer(*local_data_port as i128));
                d.insert("controlPort", Value::Integer(*local_control_port as i128));
            },
            StreamResponse::AudioBuffered { id, local_data_port, audio_buffer_size } => {
                d.insert("type", Value::Integer(StreamId::AUDIO_BUFFERED as i128));
                d.insert("streamID", Value::Integer(*id as i128));
                d.insert("dataPort", Value::Integer(*local_data_port as i128));
                d.insert("audioBufferSize", Value::Integer(*audio_buffer_size as i128));
            },
            StreamResponse::Video { id, local_data_port } => {
                d.insert("type", Value::Integer(StreamId::VIDEO as i128));
                d.insert("streamID", Value::Integer(*id as i128));
                d.insert("dataPort", Value::Integer(*local_data_port as i128));
            },
        }
        d
    }
}

/// Fields that a stream kind does not define are absent from its encoding:
/// no `audioBufferSize` for realtime audio, no `controlPort` for buffered audio,
/// neither for video.
pub proof fn lemma_response_omits_foreign_fields(r: StreamResponse, d: Dictionary)
    requires
        r.encoded(d),
    ensures
        !(r is AudioBuffered) ==> d.get_spec("audioBufferSize"@) is None,
        !(r is AudioRealtime) ==> d.get_spec("controlPort"@) is None,
{
    reveal_strlit("type");
    reveal_strlit("streamID");
    reveal_strlit("dataPort");
    reveal_strlit("controlPort");
    reveal_strlit("audioBufferSize");
    let e = d.entries@;
    if !(r is AudioBuffered) {
        assert forall|i: int| 0 <= i < e.len() implies #[trigger] e[i].0@ != "audioBufferSize"@ by {
            assert(e[i].0@.len() != "audioBufferSize"@.len());
        }
        lemma_lookup_absent(e, "audioBufferSize"@);
    }
    if !(r is AudioRealtime) {
        assert forall|i: int| 0 <= i < e.len() implies #[trigger] e[i].0@ != "controlPort"@ by {
            assert(e[i].0@.len() != "controlPort"@.len());
        }
        lemma_lookup_absent(e, "controlPort"@);
    }
}

/// How the sender keeps time.
pub enum TimingProtocol {
    Ptp,
    Ntp { remote_port: u16 },
}

/// Decoding the timing choice: `timingProtocol` is `PTP` or `NTP`, and `NTP`
/// carries its `timingPort`.
pub open spec fn timing_spec(d: Dictionary) -> Result<TimingProtocol, DecodeError> {
    match text_check(d, Field::TimingProtocol) {
        Err(e) => Err(e),
        Ok(s) => if s@ == "PTP"@ {
            Ok(TimingProtocol::Ptp)
        } else if s@ == "NTP"@ {
            match int_check(d, Field::TimingPort, 0, U16_MAX) {
                Ok(p) => Ok(TimingProtocol::Ntp { remote_port: p as u16 }),
                Err(e) => Err(e),
            }
        } else {
            Err(DecodeError::UnknownVariant(Field::TimingProtocol))
        },
    }
}

impl TimingProtocol {
    pub fn decode(d: &Dictionary) -> (r: Result<TimingProtocol, DecodeError>)
        ensures
            r == timing_spec(*d),
    {
        let name = read_text(d, Field::TimingProtocol)?;
        if name == "PTP".to_owned() {
            Ok(TimingProtocol::Ptp)
        } else if name == "NTP".to_owned() {
            let port = read_int(d, Field::TimingPort, 0, U16_MAX)?;
            Ok(TimingProtocol::Ntp { remote_port: port as u16 })
        } else {
            Err(DecodeError::UnknownVariant(Field::TimingProtocol))
        }
    }
}

/// What the sender says of itself in its first SETUP.
pub struct SenderInfo {
    pub name: String,
    pub model: String,
    pub device_id: String,
    pub mac_addr: String,
    pub os_name: Option<String>,
    pub os_version: Option<String>,
    pub os_build_version: Option<String>,
    pub ekey: Vec<u8>,
    pub eiv: Vec<u8>,
    pub timing_proto: TimingProtocol,
}

/// The first error met when decoding sender information, if any.
pub open spec fn sender_outcome(d: Dictionary) -> Result<(), DecodeError> {
    first_error(text_check(d, Field::Name),
    first_error(text_check(d, Field::Model),
    first_error(text_check(d, Field::DeviceId),
    first_error(text_check(d, Field::MacAddress),
    first_error(opt_text_check(d, Field::OsName),
    first_error(opt_text_check(d, Field::OsVersion),
    first_error(opt_text_check(d, Field::OsBuildVersion),
    first_error(data_check(d, Field::EncryptedKey),
    first_error(data_check(d, Field::EncryptionIv),
    first_error(timing_spec(d), Ok(())))))))))))
}

/// Each field of `x` is the one read from `d`.
pub open spec fn sender_fields(x: SenderInfo, d: Dictionary) -> bool {
    &&& text_check(d, Field::Name) == Ok::<String, DecodeError>(x.name)
    &&& text_check(d, Field::Model) == Ok::<String, DecodeError>(x.model)
    &&& text_check(d, Field::DeviceId) == Ok::<String, DecodeError>(x.device_id)
    &&& text_check(d, Field::MacAddress) == Ok::<String, DecodeError>(x.mac_addr)
    &&& opt_text_check(d, Field::OsName) == Ok::<Option<String>, DecodeError>(x.os_name)
    &&& opt_text_check(d, Field::OsVersion) == Ok::<Option<String>, DecodeError>(x.os_version)
    &&& opt_text_check(d, Field::OsBuildVersion) == Ok::<Option<String>, DecodeError>(x.os_build_version)
    &&& data_check(d, Field::EncryptedKey) == Ok::<Seq<u8>, DecodeError>(x.ekey@)
    &&& data_check(d, Field::EncryptionIv) == Ok::<Seq<u8>, DecodeError>(x.eiv@)
    &&& timing_spec(d) == Ok::<TimingProtocol, DecodeError>(x.timing_proto)
}

impl SenderInfo {
    pub fn decode(d: &Dictionary) -> (r: Result<SenderInfo, DecodeError>)
        ensures
            match r {
                Ok(x) => sender_outcome(*d) is Ok && sender_fields(x, *d),
                Err(e) => sender_outcome(*d) == Err::<(), DecodeError>(e),
            },
    {
        let name = read_text(d, Field::Name)?;
        let model = read_text(d, Field::Model)?;
        let device_id = read_text(d, Field::DeviceId)?;
        let mac_addr = read_text(d, Field::MacAddress)?;
        let os_name = read_opt_text(d, Field::OsName)?;
        let os_version = read_opt_text(d, Field::OsVersion)?;
        let os_build_version = read_opt_text(d, Field::OsBuildVersion)?;
        let ekey = read_data(d, Field::EncryptedKey)?;
        let eiv = read_data(d, Field::EncryptionIv)?;
        let timing_proto = TimingProtocol::decode(d)?;
        Ok(SenderInfo {
            name,
            model,
            device_id,
            mac_addr,
            os_name,
            os_version,
            os_build_version,
            ekey,
            eiv,
            timing_proto,
        })
    }
}

/// Decoding the stream request node `v` fails.
pub open spec fn stream_request_fails(v: Value) -> bool {
    exists|e: DecodeError| stream_request_decoded(Err(e), v)
}

/// `r` is what decoding the list `items` gives: every node decoded in order,
/// or the error of the first node that fails.
pub open spec fn stream_list_decoded(r: Result<Vec<StreamRequest>, DecodeError>, items: Seq<Value>) -> bool {
    match r {
        Ok(rs) => rs@.len() == items.len() && forall|i: int|
            0 <= i < items.len() ==> #[trigger] stream_request_decoded(Ok(rs@[i]), items[i]),
        Err(e) => exists|k: int|
            0 <= k < items.len() && #[trigger] stream_request_decoded(Err(e), items[k])
                && forall|i: int| 0 <= i < k ==> !#[trigger] stream_request_fails(items[i]),
    }
}

/// A SETUP request: either the sender's information or a list of streams.
/// A dictionary with a `streams` key is a list of streams; any other is
/// sender information.
pub enum SetupRequest {
    SenderInfo(Box<SenderInfo>),
    Streams { requests: Vec<StreamRequest> },
}

pub fn decode_stream_list(items: &Vec<Value>) -> (r: Result<Vec<StreamRequest>, DecodeError>)
    ensures
        stream_list_decoded(r, items@),
{
    let mut out: Vec<StreamRequest> = Vec::new();
    let mut i: usize = 0;
    while i < items.len()
        invariant
            0 <= i <= items@.len(),
            out@.len() == i,
            forall|j: int| 0 <= j < i ==> #[trigger] stream_request_decoded(Ok(out@[j]), items@[j]),
        decreases items@.len() - i,
    {
        let req = StreamRequest::decode(&items[i]);
        match req {
            Ok(x) => {
                out.push(x);
            },
            Err(e) => {
                assert forall|j: int| 0 <= j < i implies !#[trigger] stream_request_fails(items@[j]) by {
                    if stream_request_fails(items@[j]) {
                        assert(stream_request_decoded(Ok(out@[j]), items@[j]));
                    }
                }
                assert(stream_request_decoded(Err(e), items@[i as int]));
                return Err(e);
            },
        }
        i = i + 1;
    }
    Ok(out)
}

impl SetupRequest {
    pub fn decode(v: &Value) -> (r: Result<SetupRequest, DecodeError>)
        ensures
            match *v {
                Value::Dictionary(d) => match d.get_spec(Field::Streams.key()) {
                    Some(Value::Array(items)) => match r {
                        Ok(SetupRequest::Streams { requests }) => stream_list_decoded(Ok(requests), items@),
                        Ok(_) => false,
                        Err(e) => stream_list_decoded(Err(e), items@),
                    },
                    Some(_) => r == Err::<SetupRequest, DecodeError>(DecodeError::InvalidType(Field::Streams)),
                    None => match r {
                        Ok(SetupRequest::SenderInfo(x)) => sender_outcome(d) is Ok && sender_fields(*x, d),
                        Ok(_) => false,
                        Err(e) => sender_outcome(d) == Err::<(), DecodeError>(e),
                    },
                },
                _ => r == Err::<SetupRequest, DecodeError>(DecodeError::NotADictionary),
            },
    {
        let d = match v {
            Value::Dictionary(d) => d,
            _ => return Err(DecodeError::NotADictionary),
        };
        match d.get(Field::Streams.name()) {
            Some(Value::Array(items)) => {
                let requests = decode_stream_list(items)?;
                Ok(SetupRequest::Streams { requests })
            },
            Some(_) => Err(DecodeError::InvalidType(Field::Streams)),
            None => Ok(SetupRequest::SenderInfo(Box::new(SenderInfo::decode(d)?))),
        }
    }
}

/// The answer to a SETUP request, shaped as the request was.
pub enum SetupResponse {
    Info { event_port: u16, timing_port: u16 },
    Streams { responses: Vec<StreamResponse> },
}

impl SetupResponse {
    /// The encoded form: `eventPort` and `timingPort`, or `streams` holding
    /// the encoding of each stream response in order.
    pub open spec fn encoded(self, v: Value) -> bool {
        match v {
            Value::Dictionary(d) => {
                let e = d.entries@;
                match self {
                    SetupResponse::Info { event_port, timing_port } => {
                        &&& e.len() == 2
                        &&& int_entry(e[0], "eventPort"@, event_port as int)
                        &&& int_entry(e[1], "timingPort"@, timing_port as int)
                    },
                    SetupResponse::Streams { responses } => {
                        &&& e.len() == 1
                        &&& e[0].0@ == "streams"@
                        &&& e[0].1 is Array
                        &&& e[0].1->Array_0@.len() == responses@.len()
                        &&& forall|i: int| 0 <= i < responses@.len() ==> {
                            let item = #[trigger] e[0].1->Array_0@[i];
                            item is Dictionary && responses@[i].encoded(item->Dictionary_0)
                        }
                    },
                }
            },
            _ => false,
        }
    }

    pub fn encode(&self) -> (v: Value)
        ensures
            self.encoded(v),
    {
        let mut d = Dictionary::new();
        match self {
            SetupResponse::Info { event_port, timing_port } => {
                d.insert("eventPort", Value::Integer(*event_port as i128));
                d.insert("timingPort", Value::Integer(*timing_port as i128));
            },
            SetupResponse::Streams { responses } => {
                let mut items: Vec<Value> = Vec::new();
                let mut i: usize = 0;
                while i < responses.len()
                    invariant
                        0 <= i <= responses@.len(),
                        items@.len() == i,
                        forall|j: int| 0 <= j < i ==> {
                            let item = #[trigger] items@[j];
                            item is Dictionary && responses@[j].encoded(item->Dictionary_0)
                        },
                    decreases responses@.len() - i,
                {
                    items.push(Value::Dictionary(responses[i].encode()));
                    i = i + 1;
                }
                d.insert("streams", Value::Array(items));
            },
        }
        Value::Dictionary(d)
    }
}

/// `r` is what decoding the TEARDOWN list `items` gives: every entry decoded
/// in order, or the error of the first entry that fails.
pub open spec fn teardown_list_decoded(r: Result<Vec<TeardownRequest>, DecodeError>, items: Seq<Value>) -> bool {
    match r {
        Ok(rs) => rs@.len() == items.len() && forall|i: int| 0 <= i < items.len()
            ==> teardown_item_spec(#[trigger] items[i]) == Ok::<TeardownRequest, DecodeError>(rs@[i]),
        Err(e) => exists|k: int| 0 <= k < items.len()
            && teardown_item_spec(#[trigger] items[k]) == Err::<TeardownRequest, DecodeError>(e)
            && forall|i: int| 0 <= i < k ==> teardown_item_spec(#[trigger] items[i]) is Ok,
    }
}

pub fn decode_teardown_list(items: &Vec<Value>) -> (r: Result<Vec<TeardownRequest>, DecodeError>)
    ensures
        teardown_list_decoded(r, items@),
{
    let mut out: Vec<TeardownRequest> = Vec::new();
    let mut i: usize = 0;
    while i < items.len()
        invariant
            0 <= i <= items@.len(),
            out@.len() == i,
            forall|j: int| 0 <= j < i ==> teardown_item_spec(#[trigger] items@[j])
                == Ok::<TeardownRequest, DecodeError>(out@[j]),
        decreases items@.len() - i,
    {
        match TeardownRequest::decode(&items[i]) {
            Ok(item) => out.push(item),
            Err(e) => {
                assert(teardown_item_spec(items@[i as int]) == Err::<TeardownRequest, DecodeError>(e));
                assert forall|j: int| 0 <= j < i implies teardown_item_spec(#[trigger] items@[j]) is Ok by {
                    assert(teardown_item_spec(items@[j]) == Ok::<TeardownRequest, DecodeError>(out@[j]));
                }
                return Err(e);
            },
        }
        i = i + 1;
    }
    Ok(out)
}

/// One stream to stop.
pub struct TeardownRequest {
    pub id: Option<u64>,
    pub ty: u32,
}

/// Decoding one entry of a TEARDOWN list.
pub open spec fn teardown_item_spec(v: Value) -> Result<TeardownRequest, DecodeError> {
    match v {
        Value::Dictionary(d) => {
            let id = opt_int_check(d, Field::StreamId, 0, U64_MAX);
            let ty = int_check(d, Field::Type, 0, U32_MAX);
            match first_error(id, first_error(ty, Ok(()))) {
                Err(e) => Err(e),
                Ok(_) => Ok(TeardownRequest {
                    id: match id->Ok_0 {
                        Some(n) => Some(n as u64),
                        None => None,
                    },
                    ty: ty->Ok_0 as u32,
                }),
            }
        },
        _ => Err(DecodeError::NotADictionary),
    }
}

impl TeardownRequest {
    pub fn decode(v: &Value) -> (r: Result<TeardownRequest, DecodeError>)
        ensures
            r == teardown_item_spec(*v),
    {
        let d = match v {
            Value::Dictionary(d) => d,
            _ => return Err(DecodeError::NotADictionary),
        };
        let id = read_opt_int(d, Field::StreamId, 0, U64_MAX)?;
        let ty = read_int(d, Field::Type, 0, U32_MAX)?;
        let id = match id {
            Some(n) => Some(n as u64),
            None => None,
        };
        Ok(TeardownRequest { id, ty: ty as u32 })
    }
}

/// A TEARDOWN request. Without a list the whole session ends; with one, each
/// listed stream stops.
pub struct Teardown {
    pub requests: Option<Vec<TeardownRequest>>,
}

impl Teardown {
    /// The streams to stop: `None` means every stream of the session.
    pub open spec fn decoded(r: Result<Teardown, DecodeError>, v: Value) -> bool {
        match v {
            Value::Dictionary(d) => match d.get_spec(Field::Streams.key()) {
                None => r == Ok::<Teardown, DecodeError>(Teardown { requests: None }),
                Some(Value::Array(items)) => match r {
                    Ok(t) => t.requests is Some && teardown_list_decoded(Ok(t.requests->Some_0), items@),
                    Err(e) => teardown_list_decoded(Err(e), items@),
                },
                Some(_) => r == Err::<Teardown, DecodeError>(DecodeError::InvalidType(Field::Streams)),
            },
            _ => r == Err::<Teardown, DecodeError>(DecodeError::NotADictionary),
        }
    }

    pub fn decode(v: &Value) -> (r: Result<Teardown, DecodeError>)
        ensures
            Teardown::decoded(r, *v),
    {
        let d = match v {
            Value::Dictionary(d) => d,
            _ => return Err(DecodeError::NotADictionary),
        };
        match d.get(Field::Streams.name()) {
            None => Ok(Teardown { requests: None }),
            Some(Value::Array(items)) => {
                let out = decode_teardown_list(items)?;
                Ok(Teardown { requests: Some(out) })
            },
            Some(_) => Err(DecodeError::InvalidType(Field::Streams)),
        }
    }
}

} // verus!
