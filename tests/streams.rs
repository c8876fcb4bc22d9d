use airplay::pool::BufferPool;
use airplay::processing::{
    realtime_packet, BufferedAction, BufferedAudio, BufferedState, PacketKind, StreamError,
    VideoAction, VideoHeader, VideoState, VideoStream, HEADER_LEN,
};

fn frame_bytes(rtp: &[u8]) -> Vec<u8> {
    let mut b = rtp.to_vec();
    b.extend_from_slice(&[0xee; 16]);
    b.extend_from_slice(&[1, 2, 3, 4, 5, 6, 7, 8]);
    b
}

#[test]
fn short_buffered_frame_is_malformed() {
    for len in [0u16, 1, 2, 3, 37] {
        let mut p = BufferedAudio::new();
        let act = p.on_bytes(len.to_be_bytes().to_vec());
        assert!(matches!(act, BufferedAction::Fail(StreamError::MalformedStream)));
        assert_eq!(p.state, BufferedState::Closed);
        assert_eq!(p.next_read(), None);
    }
}

#[test]
fn buffered_frame_goes_to_cipher() {
    let mut p = BufferedAudio::new();
    assert_eq!(p.next_read(), Some(2));
    // 2 + 12 + 24 = 38: the smallest well-formed frame.
    let act = p.on_bytes(vec![0, 38]);
    assert!(matches!(act, BufferedAction::Read(36)));
    assert_eq!(p.state, BufferedState::AwaitFrame { rtp_len: 12 });
    let rtp: Vec<u8> = (0u8..12).collect();
    match p.on_bytes(frame_bytes(&rtp)) {
        BufferedAction::Open { nonce, aad, tag, rtp: got } => {
            assert_eq!(nonce, vec![0, 0, 0, 0, 1, 2, 3, 4, 5, 6, 7, 8]);
            assert_eq!(aad, vec![4, 5, 6, 7, 8, 9, 10, 11]);
            assert_eq!(tag, vec![0xee; 16]);
            assert_eq!(got, rtp);
        }
        _ => panic!("expected the frame to go to the cipher"),
    }
    assert_eq!(p.state, BufferedState::AwaitOpen);
}

#[test]
fn failed_authentication_drops_one_packet() {
    let mut p = BufferedAudio::new();
    p.on_bytes(vec![0, 40]);
    p.on_bytes(frame_bytes(&[0u8; 14]));
    assert!(matches!(p.on_open(None), BufferedAction::Discard));
    assert_eq!(p.state, BufferedState::AwaitLength);
    assert_eq!(p.next_read(), Some(2));
    p.on_bytes(vec![0, 40]);
    p.on_bytes(frame_bytes(&[0u8; 14]));
    match p.on_open(Some(vec![9u8; 14])) {
        BufferedAction::Deliver(pkt) => assert_eq!(pkt.rtp, vec![9u8; 14]),
        _ => panic!("expected one delivered packet"),
    }
    assert_eq!(p.state, BufferedState::AwaitLength);
}

#[test]
fn realtime_datagram_needs_a_header() {
    assert!(realtime_packet(vec![0u8; HEADER_LEN - 1]).is_none());
    let pkt = realtime_packet(vec![5u8; 20]).unwrap();
    assert_eq!(pkt.rtp, vec![5u8; 20]);
}

fn video_header(len: u32, kind: u16, ts: u64) -> Vec<u8> {
    let mut h = Vec::new();
    h.extend_from_slice(&len.to_le_bytes());
    h.extend_from_slice(&kind.to_le_bytes());
    h.extend_from_slice(&0x1234u16.to_le_bytes());
    h.extend_from_slice(&ts.to_le_bytes());
    h.extend_from_slice(&[0u8; 112]);
    h
}

#[test]
fn video_header_fields_are_little_endian() {
    let h = VideoHeader::parse(&video_header(0x01020304, 4096, 0x1122334455667788));
    assert_eq!(h.payload_len, 0x01020304);
    assert_eq!(h.kind, PacketKind::Payload);
    assert_eq!(h.reserved, 0x1234);
    assert_eq!(h.timestamp, 0x1122334455667788);
    assert_eq!(PacketKind::from_code(1), PacketKind::AvcC);
    assert_eq!(PacketKind::from_code(0), PacketKind::Payload);
    assert_eq!(PacketKind::from_code(7), PacketKind::Other(7));
}

#[test]
fn codec_config_is_delivered_in_the_clear() {
    let mut v = VideoStream::new();
    assert!(matches!(v.on_bytes(video_header(3, 1, 99)), VideoAction::Read(3)));
    match v.on_bytes(vec![0xaa, 0xbb, 0xcc]) {
        VideoAction::Deliver(pkt) => {
            assert_eq!(pkt.kind, PacketKind::AvcC);
            assert_eq!(pkt.timestamp, 99);
            assert_eq!(pkt.payload, vec![0xaa, 0xbb, 0xcc]);
        }
        _ => panic!("codec configuration must not be decrypted"),
    }
    assert_eq!(v.state, VideoState::AwaitHeader);
}

#[test]
fn media_payload_end_to_end() {
    let mut v = VideoStream::new();
    assert_eq!(v.next_read(), Some(128));
    let header = vec![4, 0, 0, 0, 0, 0, 0, 0, 0, 0, 0, 0, 0, 0, 0, 0];
    let mut header = header;
    header.extend_from_slice(&[0u8; 112]);
    assert!(matches!(v.on_bytes(header), VideoAction::Read(4)));
    assert_eq!(v.next_read(), Some(4));
    let mut pkt = match v.on_bytes(vec![1, 2, 3, 4]) {
        VideoAction::Decrypt(pkt) => pkt,
        _ => panic!("media payload must be decrypted first"),
    };
    assert_eq!(v.next_read(), None);
    for b in pkt.payload.iter_mut() {
        *b ^= 0x5a;
    }
    match v.on_decrypted(pkt) {
        VideoAction::Deliver(p) => {
            assert_eq!(p.kind, PacketKind::Payload);
            assert_eq!(p.timestamp, 0);
            assert_eq!(p.payload, vec![1 ^ 0x5a, 2 ^ 0x5a, 3 ^ 0x5a, 4 ^ 0x5a]);
        }
        _ => panic!("expected delivery"),
    }
    assert_eq!(v.state, VideoState::AwaitHeader);
}

#[test]
fn pool_regions_never_overlap_and_keep_their_bytes() {
    let mut pool = BufferPool::new(64);
    let held = pool.allocate(16).unwrap();
    pool.write(held, 0, &[0xab; 16]);
    let mut taken = 0usize;
    for i in 0..40u8 {
        if let Some(s) = pool.allocate(10) {
            assert!(s.start + s.len <= 64);
            assert!(s.start >= held.start + held.len || s.start + s.len <= held.start);
            pool.write(s, 0, &[i; 10]);
            taken += s.len;
            assert!(pool.release(s));
        }
    }
    assert!(taken > 64);
    assert_eq!(pool.read(held), vec![0xab; 16]);
    assert!(pool.allocate(64).is_none());
    assert!(pool.release(held));
    assert!(!pool.release(held));
    assert_eq!(pool.allocate(64).unwrap().start, 0);
}

#[test]
fn pool_refuses_when_no_place_is_free() {
    let mut pool = BufferPool::new(32);
    let a = pool.allocate(20).unwrap();
    assert_eq!(a.start, 0);
    assert!(pool.allocate(20).is_none());
    let b = pool.allocate(12).unwrap();
    assert_eq!(b.start, 20);
    assert!(pool.allocate(1).is_none());
    assert!(pool.release(a));
    let c = pool.allocate(20).unwrap();
    assert_eq!(c.start, 0);
}
