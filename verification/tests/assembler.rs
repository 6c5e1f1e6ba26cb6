use lora_receiver::assembler::{AssemblerState, FrameAssembler, RX_BUFFER_SIZE};
use lora_receiver::error::LinkError;
use lora_receiver::packet::{ParsedMessage, SensorData};

const FRAME: &[u8] = b"+RCV=1,9,\x05\x9e\x04\xe0\x2b\xb9\x60\x75\x86,-42,7\r\n";

fn sample_message() -> ParsedMessage {
    ParsedMessage {
        sensor_data: SensorData {
            temperature_tenths: 271,
            humidity_hundredths: 5600,
            gas_resistance: 12345,
            packet_num: 5,
        },
        rssi: -42,
        snr: 7,
    }
}

fn state_of(assembler: &FrameAssembler) -> AssemblerState {
    assembler.current_state()
}

#[test]
fn new_assembler_is_idle() {
    let assembler = FrameAssembler::new();
    assert_eq!(assembler.len(), 0);
    assert!(!assembler.is_complete());
    assert_eq!(assembler.as_slice(), b"");
    assert_eq!(state_of(&assembler), AssemblerState::Idle);
    assert_eq!(RX_BUFFER_SIZE, 255);
    assert_eq!(assembler.max_len(), 255);
}

#[test]
fn capacity_is_chosen_at_construction() {
    assert!(FrameAssembler::with_capacity(256).is_none());
    assert!(FrameAssembler::with_capacity(usize::MAX).is_none());
    assert_eq!(FrameAssembler::with_capacity(255).unwrap().max_len(), 255);
    let mut small = FrameAssembler::with_capacity(4).unwrap();
    assert_eq!(small.max_len(), 4);
    assert_eq!(small.feed(b"abcdef"), 2);
    assert_eq!(small.as_slice(), b"abcd");
    assert_eq!(small.current_state(), AssemblerState::Accumulating);
    assert_eq!(small.push_byte(b'\n'), Err(LinkError::BufferOverflowDrop));
    assert_eq!(small.current_state(), AssemblerState::Complete);
    assert_eq!(small.take_frame(), Some(Err(LinkError::FrameTooShort)));
    assert_eq!(small.current_state(), AssemblerState::Idle);
    assert_eq!(small.max_len(), 4);
    let mut none = FrameAssembler::with_capacity(0).unwrap();
    assert_eq!(none.push_byte(b'x'), Err(LinkError::BufferOverflowDrop));
    assert_eq!(none.len(), 0);
    assert_eq!(none.current_state(), AssemblerState::Idle);
}

#[test]
fn small_buffer_that_fits_a_frame_receives_it() {
    let mut assembler = FrameAssembler::with_capacity(FRAME.len()).unwrap();
    assert_eq!(assembler.feed(FRAME), 0);
    assert_eq!(assembler.take_frame(), Some(Ok(sample_message())));
    let mut tight = FrameAssembler::with_capacity(FRAME.len() - 8).unwrap();
    assert_eq!(tight.feed(FRAME), 8);
    assert_eq!(tight.take_frame(), Some(Err(LinkError::TrailerUnparseable)));
    let mut tighter = FrameAssembler::with_capacity(12).unwrap();
    assert_eq!(tighter.feed(FRAME), FRAME.len() - 12);
    assert_eq!(tighter.take_frame(), Some(Err(LinkError::PayloadLengthExceedsBuffer)));
}

#[test]
fn bytes_accumulate_until_the_line_feed() {
    let mut assembler = FrameAssembler::new();
    for (i, byte) in FRAME.iter().enumerate() {
        assert!(!assembler.is_complete());
        assert_eq!(assembler.push_byte(*byte), Ok(()));
        assert_eq!(assembler.len(), i + 1);
        if i + 1 < FRAME.len() {
            assert_eq!(state_of(&assembler), AssemblerState::Accumulating);
        }
    }
    assert_eq!(state_of(&assembler), AssemblerState::Complete);
    assert_eq!(assembler.as_slice(), FRAME);
}

#[test]
fn complete_frame_is_parsed_and_the_buffer_cleared() {
    let mut assembler = FrameAssembler::new();
    assert_eq!(assembler.feed(FRAME), 0);
    assert_eq!(assembler.take_frame(), Some(Ok(sample_message())));
    assert_eq!(assembler.len(), 0);
    assert!(!assembler.is_complete());
    assert_eq!(assembler.take_frame(), None);
}

#[test]
fn nothing_is_taken_before_the_line_feed() {
    let mut assembler = FrameAssembler::new();
    assert_eq!(assembler.take_frame(), None);
    assembler.feed(&FRAME[..FRAME.len() - 1]);
    assert_eq!(assembler.take_frame(), None);
    assert_eq!(assembler.as_slice(), &FRAME[..FRAME.len() - 1]);
    assembler.feed(&FRAME[FRAME.len() - 1..]);
    assert_eq!(assembler.take_frame(), Some(Ok(sample_message())));
}

#[test]
fn buffer_is_cleared_after_a_failed_parse() {
    let mut assembler = FrameAssembler::new();
    assembler.feed(b"+OK\r\n");
    assert!(assembler.is_complete());
    assert_eq!(assembler.take_frame(), Some(Err(LinkError::FrameTooShort)));
    assert_eq!(assembler.len(), 0);
    assert!(!assembler.is_complete());
    assembler.feed(FRAME);
    assert_eq!(assembler.take_frame(), Some(Ok(sample_message())));
}

#[test]
fn bytes_beyond_capacity_are_dropped() {
    let mut assembler = FrameAssembler::new();
    let mut sent: Vec<u8> = Vec::new();
    for i in 0..400u32 {
        let byte = b'a' + (i % 26) as u8;
        let stored = assembler.push_byte(byte);
        if (i as usize) < RX_BUFFER_SIZE {
            assert_eq!(stored, Ok(()));
        } else {
            assert_eq!(stored, Err(LinkError::BufferOverflowDrop));
        }
        sent.push(byte);
        assert!(assembler.len() <= RX_BUFFER_SIZE);
        assert!(!assembler.is_complete());
    }
    assert_eq!(assembler.len(), RX_BUFFER_SIZE);
    assert_eq!(assembler.as_slice(), &sent[..RX_BUFFER_SIZE]);
    assert_eq!(assembler.push_byte(b'\n'), Err(LinkError::BufferOverflowDrop));
    assert!(assembler.is_complete());
    assert_eq!(assembler.as_slice(), &sent[..RX_BUFFER_SIZE]);
    assert_eq!(assembler.take_frame(), Some(Err(LinkError::FrameTooShort)));
    assert_eq!(assembler.len(), 0);
    assert!(!assembler.is_complete());
}

#[test]
fn oversized_frame_is_truncated_and_discarded() {
    let mut frame = b"+RCV=1,300,".to_vec();
    frame.extend_from_slice(&[0x41; 300]);
    frame.extend_from_slice(b",-42,7\r\n");
    let mut assembler = FrameAssembler::new();
    let dropped = assembler.feed(&frame);
    assert_eq!(dropped, frame.len() - RX_BUFFER_SIZE);
    assert_eq!(assembler.as_slice(), &frame[..RX_BUFFER_SIZE]);
    assert!(assembler.is_complete());
    assert_eq!(assembler.take_frame(), Some(Err(LinkError::PayloadLengthExceedsBuffer)));
    assert_eq!(assembler.len(), 0);
    assembler.feed(FRAME);
    assert_eq!(assembler.take_frame(), Some(Ok(sample_message())));
}

#[test]
fn feeding_is_pushing_each_byte() {
    let mut stream: Vec<u8> = Vec::new();
    for i in 0..300u32 {
        stream.push((i * 7 + 3) as u8);
    }
    for split in [0usize, 1, 100, 254, 255, 256, 300] {
        let mut fed = FrameAssembler::new();
        let dropped = fed.feed(&stream[..split]) + fed.feed(&stream[split..]);
        let mut pushed = FrameAssembler::new();
        let mut refused = 0;
        for byte in &stream {
            if pushed.push_byte(*byte).is_err() {
                refused += 1;
            }
        }
        assert_eq!(fed.as_slice(), pushed.as_slice());
        assert_eq!(fed.is_complete(), pushed.is_complete());
        assert_eq!(dropped, refused);
        assert_eq!(dropped, 45);
    }
}

#[test]
fn line_feed_inside_the_payload_closes_the_frame_early() {
    let mut assembler = FrameAssembler::new();
    let mut frame = b"+RCV=1,9,\x05\x9e\x04\x0a".to_vec();
    assembler.feed(&frame);
    assert!(assembler.is_complete());
    assert_eq!(assembler.take_frame(), Some(Err(LinkError::PayloadLengthExceedsBuffer)));
    frame.clear();
    assert_eq!(assembler.len(), 0);
}

#[test]
fn bytes_after_the_line_feed_join_the_frame() {
    let mut assembler = FrameAssembler::new();
    let mut stream = FRAME.to_vec();
    stream.extend_from_slice(b"+RC");
    assembler.feed(&stream);
    assert_eq!(assembler.as_slice(), &stream[..]);
    assert_eq!(assembler.take_frame(), Some(Err(LinkError::TrailerUnparseable)));
    assert_eq!(assembler.len(), 0);
}

#[test]
fn clearing_returns_to_idle() {
    let mut assembler = FrameAssembler::new();
    assembler.feed(FRAME);
    assembler.clear();
    assert_eq!(assembler.len(), 0);
    assert!(!assembler.is_complete());
    assert_eq!(assembler.take_frame(), None);
}

#[test]
fn full_buffer_without_its_line_end_can_still_hold_a_whole_frame() {
    let data_len = RX_BUFFER_SIZE - "+RCV=1,241,".len() - ",-42,7".len() - 2;
    assert_eq!(data_len, 236);
    let mut data = vec![0x05u8, 0x9e, 0x04, 0xe0, 0x2b, 0xb9, 0x60];
    data.resize(data_len, 0x55);
    let sum = lora_receiver::checksum::calculate_crc16(&data);
    let mut frame = b"+RCV=1,238,".to_vec();
    frame.extend_from_slice(&data);
    frame.push((sum >> 8) as u8);
    frame.push(sum as u8);
    frame.extend_from_slice(b",-42,7\r\n");
    assert_eq!(frame.len(), RX_BUFFER_SIZE + 2);
    let mut assembler = FrameAssembler::new();
    assert_eq!(assembler.feed(&frame), 2);
    assert!(assembler.is_complete());
    assert_eq!(assembler.take_frame(), Some(Ok(sample_message())));
}
