//! Strong types for the protocol's scalars, so that a partition index can
//! never be handed where a leader epoch belongs, and the small enumerations
//! the protocol dispatches on.

use vstd::prelude::*;

use crate::error::Error;
use crate::pb::enc_u16;
use crate::pb::spec_enc_u16;

verus! {

/// A protocol version, `V0` through `V16`.
#[derive(Debug, Clone, Copy, PartialEq, Eq, Structural)]
pub enum Version {
    V0,
    V1,
    V2,
    V3,
    V4,
    V5,
    V6,
    V7,
    V8,
    V9,
    V10,
    V11,
    V12,
    V13,
    V14,
    V15,
    V16,
}

impl Version {
    /// The wire value of this version.
    pub open spec fn spec_value(self) -> u16 {
        match self {
            Version::V0 => 0,
            Version::V1 => 1,
            Version::V2 => 2,
            Version::V3 => 3,
            Version::V4 => 4,
            Version::V5 => 5,
            Version::V6 => 6,
            Version::V7 => 7,
            Version::V8 => 8,
            Version::V9 => 9,
            Version::V10 => 10,
            Version::V11 => 11,
            Version::V12 => 12,
            Version::V13 => 13,
            Version::V14 => 14,
            Version::V15 => 15,
            Version::V16 => 16,
        }
    }

    /// The wire value of this version.
    pub fn value(&self) -> (r: u16)
        ensures
            r == self.spec_value(),
    {
        match self {
            Version::V0 => 0,
            Version::V1 => 1,
            Version::V2 => 2,
            Version::V3 => 3,
            Version::V4 => 4,
            Version::V5 => 5,
            Version::V6 => 6,
            Version::V7 => 7,
            Version::V8 => 8,
            Version::V9 => 9,
            Version::V10 => 10,
            Version::V11 => 11,
            Version::V12 => 12,
            Version::V13 => 13,
            Version::V14 => 14,
            Version::V15 => 15,
            Version::V16 => 16,
        }
    }

    /// The version a wire value names, if it is in range.
    pub open spec fn spec_try_from(value: u16) -> Result<Version, Error> {
        if value <= 16 {
            Ok(Self::spec_from_value(value))
        } else {
            Err(Error::UnsupportedApiVersion(value, None))
        }
    }

    /// The version with the given wire value, for values up to sixteen.
    pub open spec fn spec_from_value(value: u16) -> Version {
        if value == 0 {
            Version::V0
        } else if value == 1 {
            Version::V1
        } else if value == 2 {
            Version::V2
        } else if value == 3 {
            Version::V3
        } else if value == 4 {
            Version::V4
        } else if value == 5 {
            Version::V5
        } else if value == 6 {
            Version::V6
        } else if value == 7 {
            Version::V7
        } else if value == 8 {
            Version::V8
        } else if value == 9 {
            Version::V9
        } else if value == 10 {
            Version::V10
        } else if value == 11 {
            Version::V11
        } else if value == 12 {
            Version::V12
        } else if value == 13 {
            Version::V13
        } else if value == 14 {
            Version::V14
        } else if value == 15 {
            Version::V15
        } else {
            Version::V16
        }
    }

    /// Reads a version off its wire value; values past sixteen are
    /// unsupported.
    pub fn try_from_u16(value: u16) -> (r: Result<Version, Error>)
        ensures
            r == Self::spec_try_from(value),
    {
        match value {
            0 => Ok(Version::V0),
            1 => Ok(Version::V1),
            2 => Ok(Version::V2),
            3 => Ok(Version::V3),
            4 => Ok(Version::V4),
            5 => Ok(Version::V5),
            6 => Ok(Version::V6),
            7 => Ok(Version::V7),
            8 => Ok(Version::V8),
            9 => Ok(Version::V9),
            10 => Ok(Version::V10),
            11 => Ok(Version::V11),
            12 => Ok(Version::V12),
            13 => Ok(Version::V13),
            14 => Ok(Version::V14),
            15 => Ok(Version::V15),
            16 => Ok(Version::V16),
            _ => Err(Error::UnsupportedApiVersion(value, None)),
        }
    }
}

/// One of the three request kinds the broker serves.
#[derive(Debug, Clone, Copy, PartialEq, Eq, Structural)]
pub enum ApiKey {
    ApiVersions,
    DescribeTopicPartitions,
    Fetch,
}

impl ApiKey {
    /// The wire value of this api key.
    pub open spec fn spec_value(self) -> u16 {
        match self {
            ApiKey::ApiVersions => 18,
            ApiKey::DescribeTopicPartitions => 75,
            ApiKey::Fetch => 1,
        }
    }

    /// The wire value of this api key.
    pub fn value(&self) -> (r: u16)
        ensures
            r == self.spec_value(),
    {
        match self {
            ApiKey::ApiVersions => 18,
            ApiKey::DescribeTopicPartitions => 75,
            ApiKey::Fetch => 1,
        }
    }

    /// The api key a wire value names, if it is one that is served.
    pub open spec fn spec_try_from(value: u16) -> Result<ApiKey, Error> {
        if value == 18 {
            Ok(ApiKey::ApiVersions)
        } else if value == 75 {
            Ok(ApiKey::DescribeTopicPartitions)
        } else if value == 1 {
            Ok(ApiKey::Fetch)
        } else {
            Err(Error::UnsupportedApiKey(value, None))
        }
    }

    /// Reads an api key off its wire value; anything but the three served
    /// keys is unsupported.
    pub fn try_from_u16(value: u16) -> (r: Result<ApiKey, Error>)
        ensures
            r == Self::spec_try_from(value),
    {
        match value {
            18 => Ok(ApiKey::ApiVersions),
            75 => Ok(ApiKey::DescribeTopicPartitions),
            1 => Ok(ApiKey::Fetch),
            _ => Err(Error::UnsupportedApiKey(value, None)),
        }
    }
}

/// A wire-level error code.
#[derive(Debug, Clone, Copy, PartialEq, Eq, Structural)]
pub enum ErrorCode {
    UnsupportedVersion,
    NoError,
    UnknownTopicOrPartition,
    UnknownTopic,
}

impl ErrorCode {
    /// The wire value of this error code.
    pub open spec fn spec_value(self) -> i16 {
        match self {
            ErrorCode::UnsupportedVersion => 35,
            ErrorCode::NoError => 0,
            ErrorCode::UnknownTopicOrPartition => 3,
            ErrorCode::UnknownTopic => 100,
        }
    }

    /// The wire value of this error code.
    pub fn value(&self) -> (r: i16)
        ensures
            r == self.spec_value(),
    {
        match self {
            ErrorCode::UnsupportedVersion => 35,
            ErrorCode::NoError => 0,
            ErrorCode::UnknownTopicOrPartition => 3,
            ErrorCode::UnknownTopic => 100,
        }
    }
}

/// The length prefix that frames every message.
#[derive(Debug, Clone, Copy, PartialEq, Eq, Structural)]
pub struct MessageSize(pub u32);

impl MessageSize {
    /// Wraps a frame length.
    pub fn new(v: u32) -> (r: MessageSize)
        ensures
            r == MessageSize(v),
    {
        MessageSize(v)
    }

    /// The wrapped frame length.
    pub fn value(&self) -> (r: u32)
        ensures
            r == self.0,
    {
        self.0
    }

    /// Reads a frame length from its four big-endian bytes.
    pub fn try_from_bytes(value: [u8; 4]) -> (r: Result<MessageSize, Error>)
        ensures
            r == Ok::<_, Error>(MessageSize(
                (value@[0] * 0x100_0000 + value@[1] * 0x1_0000 + value@[2] * 0x100
                    + value@[3]) as u32,
            )),
    {
        let x: u32 = (value[0] as u32) * 0x100_0000 + (value[1] as u32) * 0x1_0000 + (value[2]
            as u32) * 0x100 + (value[3] as u32);
        Ok(MessageSize(x))
    }
}

/// The one-byte tagged-fields placeholder, always zero on emit.
#[derive(Debug, Clone, Copy, PartialEq, Eq, Structural)]
pub struct TagBuffer(pub u8);

impl TagBuffer {
    /// Wraps a tag-buffer byte.
    pub fn new(v: u8) -> (r: TagBuffer)
        ensures
            r == TagBuffer(v),
    {
        TagBuffer(v)
    }

    /// The wrapped byte.
    pub fn value(&self) -> (r: u8)
        ensures
            r == self.0,
    {
        self.0
    }

    /// The empty tag buffer.
    pub fn zero() -> (r: TagBuffer)
        ensures
            r == TagBuffer(0),
    {
        TagBuffer(0)
    }
}

/// One advertised api: its key, the versions served, and a tag buffer.
#[derive(Debug, Clone, Copy, PartialEq, Eq, Structural)]
pub struct Api(pub ApiKey, pub Version, pub Version, pub TagBuffer);

/// The wire form of one advertised api: key, minimum and maximum version,
/// each two bytes big-endian, then the tag buffer byte.
pub open spec fn spec_enc_api(a: Api) -> Seq<u8> {
    spec_enc_u16(a.0.spec_value()) + spec_enc_u16(a.1.spec_value()) + spec_enc_u16(
        a.2.spec_value(),
    ) + seq![a.3.0]
}

impl Api {
    /// Packs an advertised api.
    pub fn new(api_key: ApiKey, min: Version, max: Version, tf: TagBuffer) -> (r: Api)
        ensures
            r == Api(api_key, min, max, tf),
    {
        Api(api_key, min, max, tf)
    }

    /// The advertised key.
    pub fn api_key(&self) -> (r: ApiKey)
        ensures
            r == self.0,
    {
        self.0
    }

    /// The lowest version served.
    pub fn min(&self) -> (r: Version)
        ensures
            r == self.1,
    {
        self.1
    }

    /// The highest version served.
    pub fn max(&self) -> (r: Version)
        ensures
            r == self.2,
    {
        self.2
    }

    /// The trailing tag buffer.
    pub fn tagged_fields(&self) -> (r: TagBuffer)
        ensures
            r == self.3,
    {
        self.3
    }

    /// Appends the wire form of this advertised api to `out`.
    pub fn encode(&self, out: &mut Vec<u8>)
        ensures
            final(out)@ == old(out)@ + spec_enc_api(*self),
    {
        let ghost pre = out@;
        enc_u16(out, self.0.value());
        enc_u16(out, self.1.value());
        enc_u16(out, self.2.value());
        out.push(self.3.0);
        assert(out@ =~= pre + spec_enc_api(*self));
    }
}

/// A client-assigned tag echoed in the response.
#[derive(Debug, Clone, Copy, PartialEq, Eq, Structural)]
pub struct CorrelationId(pub u32);

impl CorrelationId {
    /// Wraps a correlation id.
    pub fn new(v: u32) -> (r: CorrelationId)
        ensures
            r == CorrelationId(v),
    {
        CorrelationId(v)
    }

    /// The wrapped id.
    pub fn value(&self) -> (r: u32)
        ensures
            r == self.0,
    {
        self.0
    }
}

/// How long the broker asked the client to hold off, in milliseconds.
#[derive(Debug, Clone, Copy, PartialEq, Eq, Structural)]
pub struct ThrottleTime(pub u32);

impl ThrottleTime {
    /// Wraps a throttle time.
    pub fn new(v: u32) -> (r: ThrottleTime)
        ensures
            r == ThrottleTime(v),
    {
        ThrottleTime(v)
    }

    /// The wrapped time.
    pub fn value(&self) -> (r: u32)
        ensures
            r == self.0,
    {
        self.0
    }

    /// No throttling.
    pub fn zero() -> (r: ThrottleTime)
        ensures
            r == ThrottleTime(0),
    {
        ThrottleTime(0)
    }
}

/// The name a client gave for itself in the request header.
#[derive(Debug, Clone)]
pub struct ClientId(pub String);

impl View for ClientId {
    type V = Seq<char>;

    open spec fn view(&self) -> Seq<char> {
        self.0@
    }
}

impl ClientId {
    /// Wraps a client name.
    pub fn new(v: String) -> (r: ClientId)
        ensures
            r@ == v@,
    {
        ClientId(v)
    }

    /// The wrapped name.
    pub fn value(&self) -> (r: &String)
        ensures
            r@ == self@,
    {
        &self.0
    }
}

/// A plain (non-compact) two-byte string length.
#[derive(Debug, Clone, Copy, PartialEq, Eq, Structural)]
pub struct Length(pub i16);

impl Length {
    /// Wraps a string length.
    pub fn new(v: i16) -> (r: Length)
        ensures
            r == Length(v),
    {
        Length(v)
    }

    /// The wrapped length.
    pub fn value(&self) -> (r: i16)
        ensures
            r == self.0,
    {
        self.0
    }
}

/// A fetch session id.
#[derive(Debug, Clone, Copy, PartialEq, Eq, Structural)]
pub struct SessionId(pub u32);

impl SessionId {
    /// Wraps a session id.
    pub fn new(v: u32) -> (r: SessionId)
        ensures
            r == SessionId(v),
    {
        SessionId(v)
    }

    /// The wrapped id.
    pub fn value(&self) -> (r: u32)
        ensures
            r == self.0,
    {
        self.0
    }
}

/// How long a fetch may wait, in milliseconds.
#[derive(Debug, Clone, Copy, PartialEq, Eq, Structural)]
pub struct MaxWait(pub u32);

impl MaxWait {
    /// Wraps a wait bound.
    pub fn new(v: u32) -> (r: MaxWait)
        ensures
            r == MaxWait(v),
    {
        MaxWait(v)
    }

    /// The wrapped bound.
    pub fn value(&self) -> (r: u32)
        ensures
            r == self.0,
    {
        self.0
    }
}

/// The fewest bytes a fetch should return.
#[derive(Debug, Clone, Copy, PartialEq, Eq, Structural)]
pub struct MinBytes(pub u32);

impl MinBytes {
    /// Wraps a byte bound.
    pub fn new(v: u32) -> (r: MinBytes)
        ensures
            r == MinBytes(v),
    {
        MinBytes(v)
    }

    /// The wrapped bound.
    pub fn value(&self) -> (r: u32)
        ensures
            r == self.0,
    {
        self.0
    }
}

/// The most bytes a fetch should return.
#[derive(Debug, Clone, Copy, PartialEq, Eq, Structural)]
pub struct MaxBytes(pub u32);

impl MaxBytes {
    /// Wraps a byte bound.
    pub fn new(v: u32) -> (r: MaxBytes)
        ensures
            r == MaxBytes(v),
    {
        MaxBytes(v)
    }

    /// The wrapped bound.
    pub fn value(&self) -> (r: u32)
        ensures
            r == self.0,
    {
        self.0
    }
}

/// Which committed state a fetch may see.
#[derive(Debug, Clone, Copy, PartialEq, Eq, Structural)]
pub struct IsolationLevel(pub u8);

impl IsolationLevel {
    /// Wraps an isolation level.
    pub fn new(v: u8) -> (r: IsolationLevel)
        ensures
            r == IsolationLevel(v),
    {
        IsolationLevel(v)
    }

    /// The wrapped level.
    pub fn value(&self) -> (r: u8)
        ensures
            r == self.0,
    {
        self.0
    }
}

/// A fetch session epoch.
#[derive(Debug, Clone, Copy, PartialEq, Eq, Structural)]
pub struct SessionEpoch(pub u32);

impl SessionEpoch {
    /// Wraps a session epoch.
    pub fn new(v: u32) -> (r: SessionEpoch)
        ensures
            r == SessionEpoch(v),
    {
        SessionEpoch(v)
    }

    /// The wrapped epoch.
    pub fn value(&self) -> (r: u32)
        ensures
            r == self.0,
    {
        self.0
    }
}

/// The offset up to which every replica has the log.
#[derive(Debug, Clone, Copy, PartialEq, Eq, Structural)]
pub struct HighWatermark(pub u64);

impl HighWatermark {
    /// Wraps a watermark.
    pub fn new(v: u64) -> (r: HighWatermark)
        ensures
            r == HighWatermark(v),
    {
        HighWatermark(v)
    }

    /// The wrapped watermark.
    pub fn value(&self) -> (r: u64)
        ensures
            r == self.0,
    {
        self.0
    }
}

/// The last offset decided either way by every open transaction.
#[derive(Debug, Clone, Copy, PartialEq, Eq, Structural)]
pub struct LastStableOffset(pub u64);

impl LastStableOffset {
    /// Wraps an offset.
    pub fn new(v: u64) -> (r: LastStableOffset)
        ensures
            r == LastStableOffset(v),
    {
        LastStableOffset(v)
    }

    /// The wrapped offset.
    pub fn value(&self) -> (r: u64)
        ensures
            r == self.0,
    {
        self.0
    }
}

/// The producer an aborted transaction belonged to.
#[derive(Debug, Clone, Copy, PartialEq, Eq, Structural)]
pub struct ProducerId(pub u64);

impl ProducerId {
    /// Wraps a producer id.
    pub fn new(v: u64) -> (r: ProducerId)
        ensures
            r == ProducerId(v),
    {
        ProducerId(v)
    }

    /// The wrapped id.
    pub fn value(&self) -> (r: u64)
        ensures
            r == self.0,
    {
        self.0
    }
}

/// Where an aborted transaction began.
#[derive(Debug, Clone, Copy, PartialEq, Eq, Structural)]
pub struct FirstOffset(pub u64);

impl FirstOffset {
    /// Wraps an offset.
    pub fn new(v: u64) -> (r: FirstOffset)
        ensures
            r == FirstOffset(v),
    {
        FirstOffset(v)
    }

    /// The wrapped offset.
    pub fn value(&self) -> (r: u64)
        ensures
            r == self.0,
    {
        self.0
    }
}

/// The replica the client should prefer to read from.
#[derive(Debug, Clone, Copy, PartialEq, Eq, Structural)]
pub struct PreferredReadReplica(pub u32);

impl PreferredReadReplica {
    /// Wraps a replica id.
    pub fn new(v: u32) -> (r: PreferredReadReplica)
        ensures
            r == PreferredReadReplica(v),
    {
        PreferredReadReplica(v)
    }

    /// The wrapped id.
    pub fn value(&self) -> (r: u32)
        ensures
            r == self.0,
    {
        self.0
    }
}

} // verus!
