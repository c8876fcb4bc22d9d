//! Framing decisions of the per-stream packet processors.
//!
//! Each processor is a state machine: the driver performs the reads and the
//! cipher calls that an action asks for and hands the outcome back as an event.

use vstd::prelude::*;
use vstd::slice::{slice_subrange, slice_to_vec};

verus! {

/// Length of the RTP header that leads every audio packet.
pub const HEADER_LEN: usize = 12;
/// Length of the authentication trailer of a buffered audio frame: tag, then nonce suffix.
pub const TRAILER_LEN: usize = 24;
pub const TAG_LEN: usize = 16;
pub const NONCE_LEN: usize = 12;
pub const NONCE_SUFFIX_LEN: usize = 8;
pub const AAD_LEN: usize = 8;
/// Offset of the additional authenticated data inside the RTP header.
pub const AAD_OFFSET: usize = 4;
/// Size of the big-endian length prefix of a buffered audio frame.
pub const LENGTH_PREFIX_LEN: usize = 2;
/// Size of the fixed header of a video frame.
pub const VIDEO_HEADER_LEN: usize = 128;

/// The unsigned big-endian value of two bytes.
pub open spec fn be16(b: Seq<u8>) -> int {
    b[0] * 256 + b[1]
}

/// The unsigned little-endian value of two bytes at `i`.
pub open spec fn le16(b: Seq<u8>, i: int) -> int {
    b[i] + 256 * b[i + 1]
}

/// The unsigned little-endian value of four bytes at `i`.
pub open spec fn le32(b: Seq<u8>, i: int) -> int {
    le16(b, i) + 0x1_0000 * le16(b, i + 2)
}

/// The unsigned little-endian value of eight bytes at `i`.
pub open spec fn le64(b: Seq<u8>, i: int) -> int {
    le32(b, i) + 0x1_0000_0000 * le32(b, i + 4)
}

fn read_le16(b: &[u8], i: usize) -> (r: u16)
    requires
        i + 2 <= b@.len() <= VIDEO_HEADER_LEN,
    ensures
        r == le16(b@, i as int),
{
    b[i] as u16 + 256 * (b[i + 1] as u16)
}

fn read_le32(b: &[u8], i: usize) -> (r: u32)
    requires
        i + 4 <= b@.len() <= VIDEO_HEADER_LEN,
    ensures
        r == le32(b@, i as int),
{
    read_le16(b, i) as u32 + 0x1_0000 * (read_le16(b, i + 2) as u32)
}

fn read_le64(b: &[u8], i: usize) -> (r: u64)
    requires
        i + 8 <= b@.len() <= VIDEO_HEADER_LEN,
    ensures
        r == le64(b@, i as int),
{
    read_le32(b, i) as u64 + 0x1_0000_0000 * (read_le32(b, i + 4) as u64)
}

/// Why a processor stopped on its own.
#[derive(Clone, Copy, Debug, PartialEq, Eq, Structural)]
pub enum StreamError {
    /// A length field disagrees with the framing; the stream cannot be resynchronised.
    MalformedStream,
}

/// An audio packet: an RTP header followed by its payload.
pub struct AudioPacket {
    pub rtp: Vec<u8>,
}

/// What a video frame carries.
#[derive(Clone, Copy, Debug, PartialEq, Eq, Structural)]
pub enum PacketKind {
    /// Codec configuration, sent in the clear.
    AvcC,
    /// Encrypted media.
    Payload,
    Other(u16),
}

impl PacketKind {
    pub open spec fn from_code_spec(code: u16) -> PacketKind {
        if code == 1 {
            PacketKind::AvcC
        } else if code == 0 || code == 4096 {
            PacketKind::Payload
        } else {
            PacketKind::Other(code)
        }
    }

    pub fn from_code(code: u16) -> (r: PacketKind)
        ensures
            r == PacketKind::from_code_spec(code),
    {
        if code == 1 {
            PacketKind::AvcC
        } else if code == 0 || code == 4096 {
            PacketKind::Payload
        } else {
            PacketKind::Other(code)
        }
    }
}

/// A video frame as handed to the sink.
pub struct VideoPacket {
    pub kind: PacketKind,
    pub timestamp: u64,
    pub payload: Vec<u8>,
}

/// A realtime audio datagram becomes a packet when it holds a whole RTP
/// header; a shorter one is dropped. The driver decrypts the bytes after the
/// header before delivering the packet.
pub fn realtime_packet(datagram: Vec<u8>) -> (r: Option<AudioPacket>)
    ensures
        datagram@.len() < HEADER_LEN ==> r is None,
        datagram@.len() >= HEADER_LEN ==> r is Some && r->Some_0.rtp@ == datagram@,
{
    if datagram.len() < HEADER_LEN {
        None
    } else {
        Some(AudioPacket { rtp: datagram })
    }
}

/// Where a buffered audio stream stands.
#[derive(Clone, Copy, Debug, PartialEq, Eq, Structural)]
pub enum BufferedState {
    /// Waiting for the two-byte length prefix.
    AwaitLength,
    /// Waiting for an RTP packet of `rtp_len` bytes and its trailer.
    AwaitFrame { rtp_len: usize },
    /// Waiting for the cipher to open the frame just read.
    AwaitOpen,
    /// Stopped on a malformed frame: nothing more is read or delivered.
    Closed,
}

/// What the driver of a buffered audio stream does next.
pub enum BufferedAction {
    /// Read exactly this many bytes and hand them back.
    Read(usize),
    /// Authenticate and decrypt `rtp[HEADER_LEN..]` in place with the given
    /// nonce, additional data and tag, and hand back the outcome.
    Open { nonce: Vec<u8>, aad: Vec<u8>, tag: Vec<u8>, rtp: Vec<u8> },
    /// Hand the packet to the sink, then read the next length prefix.
    Deliver(AudioPacket),
    /// Drop the frame that failed authentication, then read the next length prefix.
    Discard,
    /// Close the connection.
    Fail(StreamError),
}

/// The RTP length that a frame's length prefix announces, or `None` when the
/// frame cannot hold an RTP header and the trailer.
pub open spec fn buffered_rtp_len(prefix: int) -> Option<int> {
    let payload = if prefix >= 2 { prefix - 2 } else { 0 };
    if payload < HEADER_LEN + TRAILER_LEN {
        None
    } else {
        Some(payload - TRAILER_LEN)
    }
}

/// The buffered audio processor: length-prefixed, authenticated frames.
pub struct BufferedAudio {
    pub state: BufferedState,
}

impl BufferedAudio {
    pub fn new() -> (r: BufferedAudio)
        ensures
            r.state == BufferedState::AwaitLength,
            r.wf(),
    {
        BufferedAudio { state: BufferedState::AwaitLength }
    }

    /// A frame that is waited for holds at least an RTP header, and its size
    /// came from a two-byte prefix.
    pub open spec fn wf(self) -> bool {
        self.state is AwaitFrame ==> HEADER_LEN <= self.state->rtp_len && self.state->rtp_len + TRAILER_LEN <= 0xffff
    }

    /// The number of bytes the processor waits for, when it waits for bytes.
    pub open spec fn wanted(self) -> Option<int> {
        match self.state {
            BufferedState::AwaitLength => Some(LENGTH_PREFIX_LEN as int),
            BufferedState::AwaitFrame { rtp_len } => Some(rtp_len + TRAILER_LEN),
            _ => None,
        }
    }

    pub fn next_read(&self) -> (r: Option<usize>)
        requires
            self.wf(),
        ensures
            match r {
                Some(n) => self.wanted() == Some(n as int),
                None => self.wanted() is None,
            },
    {
        match self.state {
            BufferedState::AwaitLength => Some(LENGTH_PREFIX_LEN),
            BufferedState::AwaitFrame { rtp_len } => Some(rtp_len + TRAILER_LEN),
            _ => None,
        }
    }

    /// Takes the bytes that the processor waited for.
    ///
    /// A length prefix too short for a header and a trailer closes the stream
    /// with `MalformedStream`; any other asks for the frame. A frame is split
    /// into the RTP packet, the 16-byte tag and the 8-byte nonce suffix, and
    /// goes to the cipher with the nonce `00 00 00 00 | suffix` and the 8
    /// header bytes at offset 4 as additional data.
    pub fn on_bytes(&mut self, bytes: Vec<u8>) -> (act: BufferedAction)
        requires
            old(self).wf(),
            old(self).wanted() == Some(bytes@.len() as int),
        ensures
            final(self).wf(),
            old(self).state is AwaitLength ==> match buffered_rtp_len(be16(bytes@)) {
                None => act == BufferedAction::Fail(StreamError::MalformedStream)
                    && final(self).state == BufferedState::Closed,
                Some(n) => act == BufferedAction::Read((n + TRAILER_LEN) as usize)
                    && final(self).state == (BufferedState::AwaitFrame { rtp_len: n as usize }),
            },
            old(self).state is AwaitFrame ==> {
                let n = old(self).state->rtp_len as int;
                &&& final(self).state == BufferedState::AwaitOpen
                &&& act is Open
                &&& act->Open_rtp@ == bytes@.subrange(0, n)
                &&& act->Open_tag@ == bytes@.subrange(n, n + TAG_LEN)
                &&& act->Open_nonce@ == seq![0u8, 0u8, 0u8, 0u8] + bytes@.subrange(n + TAG_LEN, n + TRAILER_LEN)
                &&& act->Open_aad@ == bytes@.subrange(AAD_OFFSET as int, (AAD_OFFSET + AAD_LEN) as int)
            },
    {
        match self.state {
            BufferedState::AwaitLength => {
                let prefix = bytes[0] as usize * 256 + bytes[1] as usize;
                let payload = if prefix >= LENGTH_PREFIX_LEN { prefix - LENGTH_PREFIX_LEN } else { 0 };
                if payload < HEADER_LEN + TRAILER_LEN {
                    self.state = BufferedState::Closed;
                    BufferedAction::Fail(StreamError::MalformedStream)
                } else {
                    let rtp_len = payload - TRAILER_LEN;
                    self.state = BufferedState::AwaitFrame { rtp_len };
                    BufferedAction::Read(payload)
                }
            },
            BufferedState::AwaitFrame { rtp_len } => {
                let mut rtp = bytes;
                let mut trailer = rtp.split_off(rtp_len);
                let mut suffix = trailer.split_off(TAG_LEN);
                let tag = trailer;
                let zeros: usize = NONCE_LEN - NONCE_SUFFIX_LEN;
                let mut nonce: Vec<u8> = vec![0u8; zeros];
                nonce.append(&mut suffix);
                let aad = slice_to_vec(slice_subrange(rtp.as_slice(), AAD_OFFSET, AAD_OFFSET + AAD_LEN));
                self.state = BufferedState::AwaitOpen;
                assert(nonce@ =~= seq![0u8, 0u8, 0u8, 0u8] + bytes@.subrange(rtp_len + TAG_LEN, rtp_len + TRAILER_LEN));
                assert(aad@ =~= bytes@.subrange(AAD_OFFSET as int, (AAD_OFFSET + AAD_LEN) as int));
                BufferedAction::Open { nonce, aad, tag, rtp }
            },
            _ => BufferedAction::Discard,
        }
    }

    /// Takes what the cipher returned: the decrypted RTP packet, or `None` when the
    /// tag did not authenticate. A packet that authenticates is delivered; one
    /// that does not is dropped and the stream goes on with the next frame.
    pub fn on_open(&mut self, opened: Option<Vec<u8>>) -> (act: BufferedAction)
        requires
            old(self).state == BufferedState::AwaitOpen,
        ensures
            final(self).wf(),
            final(self).state == BufferedState::AwaitLength,
            match opened {
                Some(rtp) => act is Deliver && act->Deliver_0.rtp@ == rtp@,
                None => act is Discard,
            },
    {
        self.state = BufferedState::AwaitLength;
        match opened {
            Some(rtp) => BufferedAction::Deliver(AudioPacket { rtp }),
            None => BufferedAction::Discard,
        }
    }
}

/// The fixed header of a video frame.
#[derive(Clone, Copy, Debug, PartialEq, Eq, Structural)]
pub struct VideoHeader {
    pub payload_len: u32,
    pub kind: PacketKind,
    pub reserved: u16,
    pub timestamp: u64,
}

impl VideoHeader {
    /// Reads `payload_len` (u32), the kind code (u16), a reserved u16 and the
    /// timestamp (u64), all little-endian; the 112 bytes after them are unused.
    pub open spec fn parse_spec(b: Seq<u8>) -> VideoHeader {
        VideoHeader {
            payload_len: le32(b, 0) as u32,
            kind: PacketKind::from_code_spec(le16(b, 4) as u16),
            reserved: le16(b, 6) as u16,
            timestamp: le64(b, 8) as u64,
        }
    }

    pub fn parse(b: &[u8]) -> (r: VideoHeader)
        requires
            b@.len() == VIDEO_HEADER_LEN,
        ensures
            r == VideoHeader::parse_spec(b@),
    {
        VideoHeader {
            payload_len: read_le32(b, 0),
            kind: PacketKind::from_code(read_le16(b, 4)),
            reserved: read_le16(b, 6),
            timestamp: read_le64(b, 8),
        }
    }
}

/// Where a video stream stands.
#[derive(Clone, Copy, Debug, PartialEq, Eq, Structural)]
pub enum VideoState {
    /// Waiting for the fixed header.
    AwaitHeader,
    /// Waiting for the payload that the header announced.
    AwaitPayload { header: VideoHeader },
    /// Waiting for the payload to be decrypted.
    AwaitDecrypt,
}

/// What the driver of a video stream does next.
pub enum VideoAction {
    /// Read exactly this many bytes and hand them back.
    Read(usize),
    /// Decrypt the packet's payload in place and hand the packet back.
    Decrypt(VideoPacket),
    /// Hand the packet to the sink, then read the next header.
    Deliver(VideoPacket),
}

/// The video processor: a fixed header, then the payload; only media payloads
/// are encrypted.
pub struct VideoStream {
    pub state: VideoState,
}

impl VideoStream {
    pub fn new() -> (r: VideoStream)
        ensures
            r.state == VideoState::AwaitHeader,
    {
        VideoStream { state: VideoState::AwaitHeader }
    }

    /// The number of bytes the processor waits for, when it waits for bytes.
    pub open spec fn wanted(self) -> Option<int> {
        match self.state {
            VideoState::AwaitHeader => Some(VIDEO_HEADER_LEN as int),
            VideoState::AwaitPayload { header } => Some(header.payload_len as int),
            VideoState::AwaitDecrypt => None,
        }
    }

    pub fn next_read(&self) -> (r: Option<usize>)
        ensures
            match r {
                Some(n) => self.wanted() == Some(n as int),
                None => self.wanted() is None,
            },
    {
        match self.state {
            VideoState::AwaitHeader => Some(VIDEO_HEADER_LEN),
            VideoState::AwaitPayload { header } => Some(header.payload_len as usize),
            VideoState::AwaitDecrypt => None,
        }
    }

    /// Takes the bytes that the processor waited for. A header asks for its
    /// payload. A media payload goes to be decrypted; codec configuration and
    /// other kinds are delivered as they came off the wire.
    pub fn on_bytes(&mut self, bytes: Vec<u8>) -> (act: VideoAction)
        requires
            old(self).wanted() == Some(bytes@.len() as int),
        ensures
            old(self).state is AwaitHeader ==> {
                let h = VideoHeader::parse_spec(bytes@);
                &&& final(self).state == (VideoState::AwaitPayload { header: h })
                &&& act == VideoAction::Read(h.payload_len as usize)
            },
            old(self).state is AwaitPayload ==> {
                let h = old(self).state->header;
                let pkt = if act is Decrypt { act->Decrypt_0 } else { act->Deliver_0 };
                &&& pkt.kind == h.kind
                &&& pkt.timestamp == h.timestamp
                &&& pkt.payload@ == bytes@
                &&& if h.kind is Payload {
                    act is Decrypt && final(self).state == VideoState::AwaitDecrypt
                } else {
                    act is Deliver && final(self).state == VideoState::AwaitHeader
                }
            },
    {
        match self.state {
            VideoState::AwaitHeader => {
                let h = VideoHeader::parse(bytes.as_slice());
                self.state = VideoState::AwaitPayload { header: h };
                VideoAction::Read(h.payload_len as usize)
            },
            VideoState::AwaitPayload { header } => {
                let pkt = VideoPacket { kind: header.kind, timestamp: header.timestamp, payload: bytes };
                if matches!(header.kind, PacketKind::Payload) {
                    self.state = VideoState::AwaitDecrypt;
                    VideoAction::Decrypt(pkt)
                } else {
                    self.state = VideoState::AwaitHeader;
                    VideoAction::Deliver(pkt)
                }
            },
            VideoState::AwaitDecrypt => VideoAction::Read(0),
        }
    }

    /// Takes the packet back once its payload is decrypted and delivers it.
    pub fn on_decrypted(&mut self, pkt: VideoPacket) -> (act: VideoAction)
        requires
            old(self).state == VideoState::AwaitDecrypt,
        ensures
            final(self).state == VideoState::AwaitHeader,
            act is Deliver,
            act->Deliver_0.kind == pkt.kind,
            act->Deliver_0.timestamp == pkt.timestamp,
            act->Deliver_0.payload@ == pkt.payload@,
    {
        self.state = VideoState::AwaitHeader;
        VideoAction::Deliver(pkt)
    }
}

} // verus!
