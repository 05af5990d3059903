use ws_rpc::wire::{get_u32_le, get_u64_le, put_u32_le, put_u64_le};
use ws_rpc::{AgentId, DecodeError, Message, MessageHeader, RequestId};

fn message(src: u32, dst: u32, request: u64, body: &[u8]) -> Message {
    Message {
        header: MessageHeader {
            src_agent_id: AgentId(src),
            dst_agent_id: AgentId(dst),
            request_id: RequestId(request),
        },
        body: body.to_vec(),
    }
}

#[test]
fn header_is_sixteen_bytes() {
    assert_eq!(MessageHeader::SIZE, 16);
    assert_eq!(message(2, 1, 123, b"hello world").header.encode().len(), 16);
}

#[test]
fn integers_go_least_significant_byte_first() {
    let mut out = vec![0xeeu8];
    put_u32_le(&mut out, 0x0403_0201);
    assert_eq!(out, vec![0xee, 1, 2, 3, 4]);
    put_u64_le(&mut out, 0x0c0b_0a09_0807_0605);
    assert_eq!(out, vec![0xee, 1, 2, 3, 4, 5, 6, 7, 8, 9, 10, 11, 12]);
    assert_eq!(get_u32_le(&out, 1), 0x0403_0201);
    assert_eq!(get_u64_le(&out, 5), 0x0c0b_0a09_0807_0605);
    assert_eq!(get_u32_le(&out, 0), 0x0302_01ee);
}

#[test]
fn integers_survive_at_their_limits() {
    for x in [0u32, 1, 255, 256, 65_535, 65_536, 0x00ff_ffff, 0x0100_0000, u32::MAX] {
        let mut out = Vec::new();
        put_u32_le(&mut out, x);
        assert_eq!(out, x.to_le_bytes().to_vec());
        assert_eq!(get_u32_le(&out, 0), x);
    }
    for x in [0u64, 1, 255, 256, 0xffff_ffff, 0x1_0000_0000, 0x00ff_ffff_ffff_ffff, u64::MAX] {
        let mut out = Vec::new();
        put_u64_le(&mut out, x);
        assert_eq!(out, x.to_le_bytes().to_vec());
        assert_eq!(get_u64_le(&out, 0), x);
    }
}

#[test]
fn encode_writes_the_fields_at_their_offsets() {
    let m = message(0x0403_0201, 0x0807_0605, 0x100f_0e0d_0c0b_0a09, &[0xaa, 0xbb]);
    assert_eq!(
        m.encode(),
        vec![1, 2, 3, 4, 5, 6, 7, 8, 9, 10, 11, 12, 13, 14, 15, 16, 0xaa, 0xbb]
    );
    assert_eq!(
        m.header.encode(),
        vec![1, 2, 3, 4, 5, 6, 7, 8, 9, 10, 11, 12, 13, 14, 15, 16]
    );
}

#[test]
fn encode_of_the_hello_world_request() {
    let frame = message(2, 1, 123, b"hello world").encode();
    let mut expected = vec![2u8, 0, 0, 0, 1, 0, 0, 0, 123, 0, 0, 0, 0, 0, 0, 0];
    expected.extend_from_slice(b"hello world");
    assert_eq!(frame, expected);
    assert_eq!(frame.len(), 27);
}

#[test]
fn decode_reads_what_encode_wrote() {
    let samples = [
        message(2, 1, 123, b"hello world"),
        message(0, 0, 0, b""),
        message(u32::MAX, u32::MAX, u64::MAX, &[0, 255, 0, 255]),
        message(7, 0, 9, b"not empty"),
        message(1, 2, 0x0102_0304_0506_0708, &[0u8; 300]),
    ];
    for m in samples {
        assert_eq!(Message::decode(&m.encode()), Ok(m.clone()));
        assert_eq!(MessageHeader::decode(&m.encode()), Ok(m.header));
    }
}

#[test]
fn encode_writes_what_decode_read() {
    let frame: Vec<u8> = (0u8..40).collect();
    let m = Message::decode(&frame).unwrap();
    assert_eq!(m.header.src_agent_id, AgentId(0x0302_0100));
    assert_eq!(m.header.dst_agent_id, AgentId(0x0706_0504));
    assert_eq!(m.header.request_id, RequestId(0x0f0e_0d0c_0b0a_0908));
    assert_eq!(m.body, (16u8..40).collect::<Vec<u8>>());
    assert_eq!(m.encode(), frame);
}

#[test]
fn decode_rejects_frames_shorter_than_a_header() {
    for len in 0..16usize {
        let frame = vec![0xffu8; len];
        assert_eq!(Message::decode(&frame), Err(DecodeError::FrameTooShort));
        assert_eq!(MessageHeader::decode(&frame), Err(DecodeError::FrameTooShort));
    }
}

#[test]
fn decode_accepts_a_bare_header() {
    let frame = vec![0x11u8; 16];
    let m = Message::decode(&frame).unwrap();
    assert_eq!(m.body, Vec::<u8>::new());
    assert_eq!(m.header.src_agent_id, AgentId(0x1111_1111));
    assert_eq!(m.header.request_id, RequestId(0x1111_1111_1111_1111));
}

#[test]
fn header_decode_looks_at_sixteen_bytes_only() {
    let m = message(5, 6, 7, b"body that the header does not see");
    assert_eq!(MessageHeader::decode(&m.encode()), Ok(m.header));
}

#[test]
fn body_is_taken_as_it_is() {
    let body: Vec<u8> = (0..=255u8).collect();
    let m = message(3, 4, 5, &body);
    let back = Message::decode(&m.encode()).unwrap();
    assert_eq!(back.body, body);
}

#[test]
fn handshake_is_told_by_its_destination() {
    assert!(message(2, 0, 0, b"").is_handshake());
    assert!(message(2, 0, 99, b"with a body").is_handshake());
    assert!(!message(0, 2, 0, b"").is_handshake());
    assert!(!message(2, 1, 123, b"hello world").is_handshake());
    assert!(AgentId(0).is_router());
    assert!(!AgentId(1).is_router());
}

#[test]
fn handshake_frame_names_the_connecting_identity() {
    let h = Message::handshake(AgentId(2));
    assert_eq!(h, message(2, 0, 0, b""));
    assert!(h.is_handshake());
    assert_eq!(h.encode(), vec![2, 0, 0, 0, 0, 0, 0, 0, 0, 0, 0, 0, 0, 0, 0, 0]);
}

#[test]
fn reply_goes_back_under_the_same_request() {
    let request = message(2, 1, 123, b"hello world");
    let reply = request.reply(AgentId(1), b"got it".to_vec());
    assert_eq!(reply, message(1, 2, 123, b"got it"));
}
