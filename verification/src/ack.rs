//! Acknowledgment encoder: the frame that answers a telemetry packet.
//!
//! An acknowledgment frame reads `AT+SEND=<peer>,<length>,<payload>` and
//! ends with a carriage return and a line feed. The payload is the encoded
//! acknowledgment packet, the length is its number of bytes in decimal.

use vstd::prelude::*;
use crate::ascii::{decimal_digits, push_decimal, CARRIAGE_RETURN, COMMA, LINE_FEED};
use crate::error::LinkError;
use crate::packet::{ack_packet_encoding, encode_ack, AckPacket, ACK_BUFFER_SIZE};

verus! {

/// Address of the node that sends the telemetry and receives the
/// acknowledgments.
pub const PEER_ADDRESS: usize = 1;

/// The command that opens an acknowledgment frame: `AT+SEND=`.
pub open spec fn send_command() -> Seq<u8> {
    seq![0x41, 0x54, 0x2b, 0x53, 0x45, 0x4e, 0x44, 0x3d]
}

/// The acknowledgment frame around an encoded acknowledgment packet.
pub open spec fn framed_ack(payload: Seq<u8>) -> Seq<u8> {
    send_command() + decimal_digits(PEER_ADDRESS as nat) + seq![COMMA] + decimal_digits(
        payload.len(),
    ) + seq![COMMA] + payload + seq![CARRIAGE_RETURN, LINE_FEED]
}

/// The acknowledgment frame for a packet, or the reason why there is none.
pub open spec fn ack_frame_bytes(packet: AckPacket) -> Result<Seq<u8>, LinkError> {
    match ack_packet_encoding(packet, ACK_BUFFER_SIZE as nat) {
        Some(payload) => Ok(framed_ack(payload)),
        None => Err(LinkError::AckEncodeFailure),
    }
}

/// Builds the acknowledgment frame around an encoded acknowledgment packet.
pub fn frame_ack_payload(payload: &[u8]) -> (frame: Vec<u8>)
    ensures
        frame@ == framed_ack(payload@),
{
    let mut frame: Vec<u8> = Vec::new();
    frame.push(0x41);
    frame.push(0x54);
    frame.push(0x2b);
    frame.push(0x53);
    frame.push(0x45);
    frame.push(0x4e);
    frame.push(0x44);
    frame.push(0x3d);
    proof {
        assert(frame@ =~= send_command());
    }
    push_decimal(&mut frame, PEER_ADDRESS);
    frame.push(COMMA);
    push_decimal(&mut frame, payload.len());
    frame.push(COMMA);
    let ghost head = frame@;
    let n: usize = payload.len();
    let mut i: usize = 0;
    while i < n
        invariant
            i <= n,
            n == payload@.len(),
            frame@ == head + payload@.take(i as int),
        decreases n - i,
    {
        frame.push(payload[i]);
        proof {
            assert(payload@.take(i + 1) =~= payload@.take(i as int).push(payload@[i as int]));
        }
        i += 1;
    }
    proof {
        assert(payload@.take(n as int) =~= payload@);
    }
    frame.push(CARRIAGE_RETURN);
    frame.push(LINE_FEED);
    proof {
        assert(frame@ =~= framed_ack(payload@));
    }
    frame
}

/// Builds the frame that carries `packet` back to the sender. No frame is
/// built where the packet cannot be encoded.
pub fn encode_ack_frame(packet: &AckPacket) -> (r: Result<Vec<u8>, LinkError>)
    ensures
        match r {
            Ok(frame) => ack_frame_bytes(*packet) == Ok::<Seq<u8>, LinkError>(frame@),
            Err(e) => ack_frame_bytes(*packet) == Err::<Seq<u8>, LinkError>(e),
        },
{
    match encode_ack(packet, ACK_BUFFER_SIZE) {
        Ok(payload) => Ok(frame_ack_payload(payload.as_slice())),
        Err(e) => Err(e),
    }
}

/// Builds the frame that accepts or rejects packet `seq_num`.
pub fn ack_frame(seq_num: u16, is_ack: bool) -> (r: Result<Vec<u8>, LinkError>)
    ensures
        match r {
            Ok(frame) => ack_frame_bytes(AckPacket::answer(seq_num, is_ack)) == Ok::<
                Seq<u8>,
                LinkError,
            >(frame@),
            Err(e) => ack_frame_bytes(AckPacket::answer(seq_num, is_ack)) == Err::<
                Seq<u8>,
                LinkError,
            >(e),
        },
{
    let packet: AckPacket = AckPacket::new(seq_num, is_ack);
    encode_ack_frame(&packet)
}

} // verus!
