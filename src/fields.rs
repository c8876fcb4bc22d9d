//! Wire field names and typed reads of dictionary fields.

use vstd::prelude::*;
use crate::value::{Dictionary, Value};

verus! {

/// A field of a negotiation dictionary that decoding can fail on.
#[derive(Clone, Copy, Debug, PartialEq, Eq, Structural)]
pub enum Field {
    Type,
    ContentType,
    AudioFormat,
    AudioFormatIndex,
    SamplesPerFrame,
    SampleRate,
    LatencyMin,
    LatencyMax,
    ControlPort,
    SharedKey,
    ClientId,
    StreamConnectionId,
    LatencyMs,
    Name,
    Model,
    DeviceId,
    MacAddress,
    OsName,
    OsVersion,
    OsBuildVersion,
    EncryptedKey,
    EncryptionIv,
    TimingProtocol,
    TimingPort,
    Streams,
    StreamId,
}

impl Field {
    /// The key under which the field is written on the wire.
    pub open spec fn key(self) -> Seq<char> {
        match self {
            Field::Type => "type"@,
            Field::ContentType => "ct"@,
            Field::AudioFormat => "audioFormat"@,
            Field::AudioFormatIndex => "audioFormatIndex"@,
            Field::SamplesPerFrame => "spf"@,
            Field::SampleRate => "sr"@,
            Field::LatencyMin => "latencyMin"@,
            Field::LatencyMax => "latencyMax"@,
            Field::ControlPort => "controlPort"@,
            Field::SharedKey => "shk"@,
            Field::ClientId => "clientID"@,
            Field::StreamConnectionId => "streamConnectionID"@,
            Field::LatencyMs => "latencyMs"@,
            Field::Name => "name"@,
            Field::Model => "model"@,
            Field::DeviceId => "deviceID"@,
            Field::MacAddress => "macAddress"@,
            Field::OsName => "osName"@,
            Field::OsVersion => "osVersion"@,
            Field::OsBuildVersion => "osBuildVersion"@,
            Field::EncryptedKey => "ekey"@,
            Field::EncryptionIv => "eiv"@,
            Field::TimingProtocol => "timingProtocol"@,
            Field::TimingPort => "timingPort"@,
            Field::Streams => "streams"@,
            Field::StreamId => "streamID"@,
        }
    }

    pub fn name(self) -> (r: &'static str)
        ensures
            r@ == self.key(),
    {
        match self {
            Field::Type => "type",
            Field::ContentType => "ct",
            Field::AudioFormat => "audioFormat",
            Field::AudioFormatIndex => "audioFormatIndex",
            Field::SamplesPerFrame => "spf",
            Field::SampleRate => "sr",
            Field::LatencyMin => "latencyMin",
            Field::LatencyMax => "latencyMax",
            Field::ControlPort => "controlPort",
            Field::SharedKey => "shk",
            Field::ClientId => "clientID",
            Field::StreamConnectionId => "streamConnectionID",
            Field::LatencyMs => "latencyMs",
            Field::Name => "name",
            Field::Model => "model",
            Field::DeviceId => "deviceID",
            Field::MacAddress => "macAddress",
            Field::OsName => "osName",
            Field::OsVersion => "osVersion",
            Field::OsBuildVersion => "osBuildVersion",
            Field::EncryptedKey => "ekey",
            Field::EncryptionIv => "eiv",
            Field::TimingProtocol => "timingProtocol",
            Field::TimingPort => "timingPort",
            Field::Streams => "streams",
            Field::StreamId => "streamID",
        }
    }
}

/// Why a negotiation payload could not be decoded.
#[derive(Clone, Copy, Debug, PartialEq, Eq, Structural)]
pub enum DecodeError {
    /// The payload is not a dictionary.
    NotADictionary,
    /// A required field is absent.
    MissingField(Field),
    /// A field is present with a value of the wrong kind or out of range.
    InvalidType(Field),
    /// The `type` field names no known stream kind.
    UnknownStreamType(u64),
    /// A textual selector field names no known alternative.
    UnknownVariant(Field),
}

/// An integer node whose value lies in `lo..=hi`.
pub open spec fn int_value(v: Value, lo: i128, hi: i128) -> Option<i128> {
    match v {
        Value::Integer(n) => if lo <= n && n <= hi {
            Some(n)
        } else {
            None
        },
        _ => None,
    }
}

/// Reading a required integer field bounded by `lo..=hi`.
pub open spec fn int_check(d: Dictionary, f: Field, lo: i128, hi: i128) -> Result<i128, DecodeError> {
    match d.get_spec(f.key()) {
        None => Err(DecodeError::MissingField(f)),
        Some(v) => match int_value(v, lo, hi) {
            Some(n) => Ok(n),
            None => Err(DecodeError::InvalidType(f)),
        },
    }
}

/// Reading an optional integer field bounded by `lo..=hi`.
pub open spec fn opt_int_check(d: Dictionary, f: Field, lo: i128, hi: i128) -> Result<Option<i128>, DecodeError> {
    match d.get_spec(f.key()) {
        None => Ok(None),
        Some(v) => match int_value(v, lo, hi) {
            Some(n) => Ok(Some(n)),
            None => Err(DecodeError::InvalidType(f)),
        },
    }
}

/// Reading a required string field.
pub open spec fn text_check(d: Dictionary, f: Field) -> Result<String, DecodeError> {
    match d.get_spec(f.key()) {
        None => Err(DecodeError::MissingField(f)),
        Some(Value::String(s)) => Ok(s),
        Some(_) => Err(DecodeError::InvalidType(f)),
    }
}

/// Reading an optional string field.
pub open spec fn opt_text_check(d: Dictionary, f: Field) -> Result<Option<String>, DecodeError> {
    match d.get_spec(f.key()) {
        None => Ok(None),
        Some(Value::String(s)) => Ok(Some(s)),
        Some(_) => Err(DecodeError::InvalidType(f)),
    }
}

/// Reading a required binary data field.
pub open spec fn data_check(d: Dictionary, f: Field) -> Result<Seq<u8>, DecodeError> {
    match d.get_spec(f.key()) {
        None => Err(DecodeError::MissingField(f)),
        Some(Value::Data(b)) => Ok(b@),
        Some(_) => Err(DecodeError::InvalidType(f)),
    }
}

/// The first error of two reads made in order, or `Ok` when neither failed.
pub open spec fn first_error<A>(r: Result<A, DecodeError>, rest: Result<(), DecodeError>) -> Result<(), DecodeError> {
    match r {
        Ok(_) => rest,
        Err(e) => Err(e),
    }
}

pub fn read_int(d: &Dictionary, f: Field, lo: i128, hi: i128) -> (r: Result<i128, DecodeError>)
    ensures
        r == int_check(*d, f, lo, hi),
{
    match d.get(f.name()) {
        None => Err(DecodeError::MissingField(f)),
        Some(Value::Integer(n)) => if lo <= *n && *n <= hi {
            Ok(*n)
        } else {
            Err(DecodeError::InvalidType(f))
        },
        Some(_) => Err(DecodeError::InvalidType(f)),
    }
}

pub fn read_opt_int(d: &Dictionary, f: Field, lo: i128, hi: i128) -> (r: Result<Option<i128>, DecodeError>)
    ensures
        r == opt_int_check(*d, f, lo, hi),
{
    match d.get(f.name()) {
        None => Ok(None),
        Some(Value::Integer(n)) => if lo <= *n && *n <= hi {
            Ok(Some(*n))
        } else {
            Err(DecodeError::InvalidType(f))
        },
        Some(_) => Err(DecodeError::InvalidType(f)),
    }
}

pub fn read_text(d: &Dictionary, f: Field) -> (r: Result<String, DecodeError>)
    ensures
        r == text_check(*d, f),
{
    match d.get(f.name()) {
        None => Err(DecodeError::MissingField(f)),
        Some(Value::String(s)) => Ok(s.clone()),
        Some(_) => Err(DecodeError::InvalidType(f)),
    }
}

pub fn read_opt_text(d: &Dictionary, f: Field) -> (r: Result<Option<String>, DecodeError>)
    ensures
        r == opt_text_check(*d, f),
{
    match d.get(f.name()) {
        None => Ok(None),
        Some(Value::String(s)) => Ok(Some(s.clone())),
        Some(_) => Err(DecodeError::InvalidType(f)),
    }
}

pub fn read_data(d: &Dictionary, f: Field) -> (r: Result<Vec<u8>, DecodeError>)
    ensures
        match r {
            Ok(b) => data_check(*d, f) == Ok::<Seq<u8>, DecodeError>(b@),
            Err(e) => data_check(*d, f) == Err::<Seq<u8>, DecodeError>(e),
        },
{
    match d.get(f.name()) {
        None => Err(DecodeError::MissingField(f)),
        Some(Value::Data(b)) => {
            let c = b.clone();
            assert(c@ =~= b@);
            Ok(c)
        },
        Some(_) => Err(DecodeError::InvalidType(f)),
    }
}

} // verus!
