use lora_receiver::ack::{ack_frame, encode_ack_frame, frame_ack_payload, PEER_ADDRESS};
use lora_receiver::packet::AckPacket;

#[test]
fn acceptance_frame_for_a_small_sequence_number() {
    assert_eq!(ack_frame(5, true), Ok(b"AT+SEND=1,2,\x01\x05\r\n".to_vec()));
}

#[test]
fn rejection_frame_for_a_small_sequence_number() {
    assert_eq!(ack_frame(5, false), Ok(b"AT+SEND=1,2,\x02\x05\r\n".to_vec()));
}

#[test]
fn frame_length_follows_the_payload() {
    assert_eq!(ack_frame(300, true), Ok(b"AT+SEND=1,3,\x01\xac\x02\r\n".to_vec()));
    assert_eq!(ack_frame(u16::MAX, true), Ok(b"AT+SEND=1,4,\x01\xff\xff\x03\r\n".to_vec()));
    assert_eq!(ack_frame(0, true), Ok(b"AT+SEND=1,2,\x01\x00\r\n".to_vec()));
}

#[test]
fn payload_that_holds_a_line_end_is_framed_unchanged() {
    assert_eq!(ack_frame(10, true), Ok(b"AT+SEND=1,2,\x01\x0a\r\n".to_vec()));
    assert_eq!(ack_frame(44, true), Ok(b"AT+SEND=1,2,\x01,\r\n".to_vec()));
}

#[test]
fn frame_of_a_packet_is_the_frame_of_its_fields() {
    for seq in [0u16, 1, 127, 128, 5000, 16383, 16384, u16::MAX] {
        for is_ack in [true, false] {
            assert_eq!(encode_ack_frame(&AckPacket::new(seq, is_ack)), ack_frame(seq, is_ack));
        }
    }
}

#[test]
fn any_payload_is_framed_with_its_length() {
    assert_eq!(frame_ack_payload(&[]), b"AT+SEND=1,0,\r\n".to_vec());
    assert_eq!(frame_ack_payload(b"abc"), b"AT+SEND=1,3,abc\r\n".to_vec());
    let long = [0x55u8; 123];
    let mut expected = b"AT+SEND=1,123,".to_vec();
    expected.extend_from_slice(&long);
    expected.extend_from_slice(b"\r\n");
    assert_eq!(frame_ack_payload(&long), expected);
    assert_eq!(PEER_ADDRESS, 1);
}
