//! Binary packet codec: the two records that travel inside frames, and
//! their compact encoding.

use vstd::prelude::*;
use crate::error::{DecodeError, LinkError};

verus! {

/// Kind byte of an acknowledgment that accepts a packet.
pub const MSG_TYPE_ACK: u8 = 1;

/// Kind byte of an acknowledgment that rejects a packet.
pub const MSG_TYPE_NACK: u8 = 2;

/// Room that the pipeline gives an encoded acknowledgment packet.
pub const ACK_BUFFER_SIZE: usize = 8;

/// One telemetry sample as the remote sensor node sends it.
#[derive(Debug, Clone, Copy, PartialEq, Eq, Structural)]
pub struct SensorDataPacket {
    /// Running number of the sample.
    pub seq_num: u16,
    /// Temperature in tenths of a degree Celsius.
    pub temperature: i16,
    /// Relative humidity in hundredths of a percent.
    pub humidity: u16,
    /// Gas resistance in ohms.
    pub gas_resistance: u32,
}

/// Reply to one telemetry packet.
#[derive(Debug, Clone, Copy, PartialEq, Eq, Structural)]
pub struct AckPacket {
    /// `MSG_TYPE_ACK` or `MSG_TYPE_NACK`.
    pub msg_type: u8,
    /// Number of the packet that is answered.
    pub seq_num: u16,
}

/// A telemetry sample in the units it is shown in.
#[derive(Debug, Clone, Copy, PartialEq, Eq, Structural)]
pub struct SensorData {
    /// Temperature in degrees Celsius, times ten.
    pub temperature_tenths: i16,
    /// Relative humidity in percent, times one hundred.
    pub humidity_hundredths: u16,
    /// Gas resistance in ohms.
    pub gas_resistance: u32,
    /// Number of the packet that carried the sample.
    pub packet_num: u16,
}

/// A validated sample together with the quality of the link it came over.
#[derive(Debug, Clone, Copy, PartialEq, Eq, Structural)]
pub struct ParsedMessage {
    pub sensor_data: SensorData,
    /// Received signal strength.
    pub rssi: i16,
    /// Signal-to-noise ratio.
    pub snr: i16,
}

/// `postcard::Error`, the error of the packet codec. It is carried from
/// the codec to the place where it is turned into an error of this library,
/// and never looked into.
#[verifier::external_type_specification]
#[verifier::external_body]
pub struct ExPostcardError(postcard::Error);

/// What `postcard` reads from the front of `bytes` as a sequence number, a
/// temperature, a humidity and a gas resistance, in that order; `None`
/// where it reports an error.
pub uninterp spec fn postcard_sensor_fields(bytes: Seq<u8>) -> Option<(u16, i16, u16, u32)>;

/// What `postcard` writes for a kind byte followed by a sequence number
/// into a buffer of `room` bytes; `None` where it reports an error.
pub uninterp spec fn postcard_ack_bytes(msg_type: u8, seq_num: u16, room: nat) -> Option<Seq<u8>>;

/// Calls `postcard::from_bytes` for the tuple `(u16, i16, u16, u32)`, which
/// `postcard` reads exactly as it reads a struct with these four fields.
/// The contract claims only that the outcome depends on nothing but the
/// bytes: it gives that outcome its name.
#[verifier::external_body]
fn postcard_from_bytes(bytes: &[u8]) -> (r: Result<(u16, i16, u16, u32), postcard::Error>)
    ensures
        match r {
            Ok(fields) => postcard_sensor_fields(bytes@) == Some(fields),
            Err(_) => postcard_sensor_fields(bytes@) is None,
        },
{
    postcard::from_bytes::<(u16, i16, u16, u32)>(bytes)
}

/// Calls `postcard::to_slice` for the tuple `(u8, u16)`, which `postcard`
/// writes exactly as it writes a struct with these two fields, and hands
/// back how many bytes it wrote. The contract claims that `postcard` writes
/// from the front of the buffer and keeps the buffer's length, and that the
/// outcome depends on nothing but the two values and the length of the
/// buffer: it gives that outcome its name.
#[verifier::external_body]
fn postcard_to_slice(msg_type: u8, seq_num: u16, buffer: &mut Vec<u8>) -> (r: Result<
    usize,
    postcard::Error,
>)
    ensures
        final(buffer)@.len() == old(buffer)@.len(),
        match r {
            Ok(used) => used <= old(buffer)@.len() && postcard_ack_bytes(
                msg_type,
                seq_num,
                old(buffer)@.len(),
            ) == Some(final(buffer)@.take(used as int)),
            Err(_) => postcard_ack_bytes(msg_type, seq_num, old(buffer)@.len()) is None,
        },
{
    match postcard::to_slice(&(msg_type, seq_num), buffer.as_mut_slice()) {
        Ok(used) => Ok(used.len()),
        Err(e) => Err(e),
    }
}

/// The telemetry packet that `bytes` encode, if they encode one.
pub open spec fn sensor_packet_decoding(bytes: Seq<u8>) -> Result<SensorDataPacket, DecodeError> {
    match postcard_sensor_fields(bytes) {
        Some((seq_num, temperature, humidity, gas_resistance)) => Ok(
            SensorDataPacket { seq_num, temperature, humidity, gas_resistance },
        ),
        None => Err(DecodeError::MalformedPacket),
    }
}

/// The encoding of an acknowledgment packet in `room` bytes, if it fits.
pub open spec fn ack_packet_encoding(packet: AckPacket, room: nat) -> Option<Seq<u8>> {
    postcard_ack_bytes(packet.msg_type, packet.seq_num, room)
}

/// Decodes a telemetry packet from the front of `bytes`.
pub fn decode_sensor_packet(bytes: &[u8]) -> (r: Result<SensorDataPacket, DecodeError>)
    ensures
        r == sensor_packet_decoding(bytes@),
{
    match postcard_from_bytes(bytes) {
        Ok((seq_num, temperature, humidity, gas_resistance)) => Ok(
            SensorDataPacket { seq_num, temperature, humidity, gas_resistance },
        ),
        Err(_) => Err(DecodeError::MalformedPacket),
    }
}

/// Encodes an acknowledgment packet into at most `room` bytes.
pub fn encode_ack(packet: &AckPacket, room: usize) -> (r: Result<Vec<u8>, LinkError>)
    ensures
        match r {
            Ok(bytes) => ack_packet_encoding(*packet, room as nat) == Some(bytes@) && bytes@.len()
                <= room,
            Err(e) => ack_packet_encoding(*packet, room as nat) is None && e
                == LinkError::AckEncodeFailure,
        },
{
    let mut buffer: Vec<u8> = Vec::new();
    while buffer.len() < room
        invariant
            buffer@.len() <= room,
        decreases room - buffer@.len(),
    {
        buffer.push(0);
    }
    match postcard_to_slice(packet.msg_type, packet.seq_num, &mut buffer) {
        Ok(used) => {
            buffer.truncate(used);
            Ok(buffer)
        },
        Err(_) => Err(LinkError::AckEncodeFailure),
    }
}

impl AckPacket {
    /// The answer to packet `seq_num`: an acceptance or a rejection.
    pub open spec fn answer(seq_num: u16, is_ack: bool) -> AckPacket {
        AckPacket {
            msg_type: if is_ack {
                MSG_TYPE_ACK
            } else {
                MSG_TYPE_NACK
            },
            seq_num,
        }
    }

    /// Makes the answer to packet `seq_num`: an acceptance or a rejection.
    pub fn new(seq_num: u16, is_ack: bool) -> (packet: AckPacket)
        ensures
            packet == AckPacket::answer(seq_num, is_ack),
    {
        AckPacket {
            msg_type: if is_ack {
                MSG_TYPE_ACK
            } else {
                MSG_TYPE_NACK
            },
            seq_num,
        }
    }
}

impl SensorData {
    /// The sample that a telemetry packet carries.
    pub open spec fn of_packet(packet: SensorDataPacket) -> SensorData {
        SensorData {
            temperature_tenths: packet.temperature,
            humidity_hundredths: packet.humidity,
            gas_resistance: packet.gas_resistance,
            packet_num: packet.seq_num,
        }
    }

    /// Takes the sample out of a telemetry packet.
    pub fn from_packet(packet: &SensorDataPacket) -> (data: SensorData)
        ensures
            data == SensorData::of_packet(*packet),
    {
        SensorData {
            temperature_tenths: packet.temperature,
            humidity_hundredths: packet.humidity,
            gas_resistance: packet.gas_resistance,
            packet_num: packet.seq_num,
        }
    }
}

} // verus!
