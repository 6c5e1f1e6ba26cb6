//! Hybrid frame parser.
//!
//! A received frame reads
//! `+RCV=<address>,<length>,<payload>,<rssi>,<snr>` and ends with a carriage
//! return and a line feed. The payload is binary: an encoded telemetry
//! packet followed by the two bytes of its checksum, high byte first. All the
//! rest is ASCII text.

use vstd::prelude::*;
use vstd::slice::slice_subrange;
use crate::ascii::{
    all_ascii,
    decimal_digits,
    find_comma,
    first_comma,
    is_ascii,
    lemma_first_comma,
    parse_i16,
    parse_usize,
    signed_digits,
    signed_field,
    trim,
    trimmed,
    unsigned_field,
    CARRIAGE_RETURN,
    COMMA,
    LINE_FEED,
};
use crate::checksum::{calculate_crc16, checksum_from_bytes, crc16_ibm_3740, join_checksum};
use crate::error::{DecodeError, LinkError};
use crate::packet::{
    decode_sensor_packet,
    sensor_packet_decoding,
    ParsedMessage,
    SensorData,
    SensorDataPacket,
};

verus! {

/// No frame is shorter than this.
pub const MIN_FRAME_LEN: usize = 10;

/// Length of the tag that opens a received frame.
pub const TAG_LEN: usize = 5;

/// The tag that opens a received frame: `+RCV=`.
pub open spec fn reception_tag() -> Seq<u8> {
    seq![0x2b, 0x52, 0x43, 0x56, 0x3d]
}

/// Where the binary payload lies in a frame: the bytes from `start` up to,
/// not including, `end`. The last two of them are the checksum.
#[derive(Debug, Clone, Copy, PartialEq, Eq, Structural)]
pub struct PayloadSpan {
    pub start: usize,
    pub end: usize,
}

/// Where the payload of frame `b` starts and ends, or why the frame has
/// none.
///
/// The address runs from the tag to the first comma, the length field from
/// there to the second comma, and the payload is as many bytes after the
/// second comma as the length field says. Commas inside the payload are
/// payload.
pub open spec fn payload_span(b: Seq<u8>) -> Result<(int, int), LinkError> {
    if b.len() < MIN_FRAME_LEN || b.subrange(0, TAG_LEN as int) != reception_tag() {
        Err(LinkError::FrameTooShort)
    } else {
        let first = first_comma(b, TAG_LEN as int);
        let second = first_comma(b, first + 1);
        if second >= b.len() {
            Err(LinkError::MissingDelimiters)
        } else {
            match unsigned_field(b.subrange(first + 1, second)) {
                None => Err(LinkError::LengthFieldUnparseable),
                Some(length) => if second + 1 + length > b.len() {
                    Err(LinkError::PayloadLengthExceedsBuffer)
                } else if length < 3 {
                    Err(LinkError::PayloadTooShortForChecksum)
                } else {
                    Ok((second + 1, second + 1 + length))
                },
            }
        }
    }
}

/// Signal strength and signal-to-noise ratio as the text after the payload
/// gives them.
///
/// The text is split at its commas. It must be ASCII and have at least
/// three fields; the second is the signal strength, the third, without the
/// whitespace around it, the signal-to-noise ratio. The first field and any
/// after the third are not read.
pub open spec fn link_quality(t: Seq<u8>) -> Option<(i16, i16)> {
    let first = first_comma(t, 0);
    let second = first_comma(t, first + 1);
    let third = first_comma(t, second + 1);
    if !is_ascii(t) || second >= t.len() {
        None
    } else {
        match (
            signed_field(t.subrange(first + 1, second)),
            signed_field(trimmed(t.subrange(second + 1, third))),
        ) {
            (Some(rssi), Some(snr)) => Some((rssi, snr)),
            _ => None,
        }
    }
}

/// The message that a decoded packet and the text after the payload make.
pub open spec fn message_from(
    decoded: Result<SensorDataPacket, DecodeError>,
    trailer: Seq<u8>,
) -> Result<ParsedMessage, LinkError> {
    match decoded {
        Err(_) => Err(LinkError::PacketDecodeFailure),
        Ok(packet) => match link_quality(trailer) {
            None => Err(LinkError::TrailerUnparseable),
            Some((rssi, snr)) => Ok(
                ParsedMessage { sensor_data: SensorData::of_packet(packet), rssi, snr },
            ),
        },
    }
}

/// What a complete frame means: the message it carries, or the first reason
/// for which it is discarded.
pub open spec fn frame_meaning(b: Seq<u8>) -> Result<ParsedMessage, LinkError> {
    match payload_span(b) {
        Err(e) => Err(e),
        Ok((start, end)) => {
            let data = b.subrange(start, end - 2);
            if checksum_from_bytes(b[end - 2], b[end - 1]) != crc16_ibm_3740(data) {
                Err(LinkError::ChecksumMismatch)
            } else {
                message_from(sensor_packet_decoding(data), b.subrange(end, b.len() as int))
            }
        },
    }
}

/// The two bytes that carry a checksum in a payload, high byte first.
pub open spec fn checksum_bytes(sum: u16) -> Seq<u8> {
    seq![(sum / 256) as u8, (sum % 256) as u8]
}

/// The payload that the sender makes of encoded data: the data, then the
/// checksum of the data.
pub open spec fn sealed_payload(data: Seq<u8>) -> Seq<u8> {
    data + checksum_bytes(crc16_ibm_3740(data))
}

/// The text with which the radio module reports signal strength and
/// signal-to-noise ratio at the end of a frame.
pub open spec fn quality_text(rssi: i16, snr: i16) -> Seq<u8> {
    seq![COMMA] + signed_digits(rssi as int) + seq![COMMA] + signed_digits(snr as int)
        + seq![CARRIAGE_RETURN, LINE_FEED]
}

/// The frame that the radio module hands over when the node with address
/// text `address` has sent `data` under its checksum and the transmission
/// came in with the given signal strength and signal-to-noise ratio.
pub open spec fn received_frame(address: Seq<u8>, data: Seq<u8>, rssi: i16, snr: i16) -> Seq<u8> {
    reception_tag() + address + seq![COMMA] + decimal_digits((data.len() + 2) as nat)
        + seq![COMMA] + sealed_payload(data) + quality_text(rssi, snr)
}

/// Whether `buffer` opens with the reception tag.
pub fn has_reception_tag(buffer: &[u8]) -> (r: bool)
    ensures
        r == (buffer@.len() >= TAG_LEN && buffer@.subrange(0, TAG_LEN as int) == reception_tag()),
{
    if buffer.len() < TAG_LEN {
        return false;
    }
    let r: bool = buffer[0] == 0x2b && buffer[1] == 0x52 && buffer[2] == 0x43 && buffer[3] == 0x56
        && buffer[4] == 0x3d;
    proof {
        let head = buffer@.subrange(0, TAG_LEN as int);
        if r {
            assert(head =~= reception_tag());
        } else {
            assert(head[0] == buffer@[0] && head[1] == buffer@[1] && head[2] == buffer@[2]
                && head[3] == buffer@[3] && head[4] == buffer@[4]);
        }
    }
    r
}

/// Finds the binary payload of a frame.
pub fn locate_payload(buffer: &[u8]) -> (r: Result<PayloadSpan, LinkError>)
    ensures
        match r {
            Ok(span) => payload_span(buffer@) == Ok::<(int, int), LinkError>(
                (span.start as int, span.end as int),
            ) && TAG_LEN + 2 <= span.start && span.start + 3 <= span.end && span.end
                <= buffer@.len(),
            Err(e) => payload_span(buffer@) == Err::<(int, int), LinkError>(e),
        },
{
    let n: usize = buffer.len();
    if n < MIN_FRAME_LEN || !has_reception_tag(buffer) {
        return Err(LinkError::FrameTooShort);
    }
    let first: usize = find_comma(buffer, TAG_LEN);
    proof {
        lemma_first_comma(buffer@, TAG_LEN as int);
    }
    if first >= n {
        return Err(LinkError::MissingDelimiters);
    }
    let second: usize = find_comma(buffer, first + 1);
    proof {
        lemma_first_comma(buffer@, first + 1);
    }
    if second >= n {
        return Err(LinkError::MissingDelimiters);
    }
    let length: usize = match parse_usize(slice_subrange(buffer, first + 1, second)) {
        Some(length) => length,
        None => {
            return Err(LinkError::LengthFieldUnparseable);
        },
    };
    let start: usize = second + 1;
    if length > n - start {
        return Err(LinkError::PayloadLengthExceedsBuffer);
    }
    if length < 3 {
        return Err(LinkError::PayloadTooShortForChecksum);
    }
    Ok(PayloadSpan { start, end: start + length })
}

/// Reads signal strength and signal-to-noise ratio from the text after the
/// payload.
pub fn parse_link_quality(trailer: &[u8]) -> (r: Option<(i16, i16)>)
    ensures
        r == link_quality(trailer@),
{
    let n: usize = trailer.len();
    if !all_ascii(trailer) {
        return None;
    }
    let first: usize = find_comma(trailer, 0);
    proof {
        lemma_first_comma(trailer@, 0);
    }
    if first >= n {
        return None;
    }
    let second: usize = find_comma(trailer, first + 1);
    proof {
        lemma_first_comma(trailer@, first + 1);
    }
    if second >= n {
        return None;
    }
    let third: usize = find_comma(trailer, second + 1);
    proof {
        lemma_first_comma(trailer@, second + 1);
    }
    let rssi: i16 = match parse_i16(slice_subrange(trailer, first + 1, second)) {
        Some(v) => v,
        None => {
            return None;
        },
    };
    let snr: i16 = match parse_i16(trim(slice_subrange(trailer, second + 1, third))) {
        Some(v) => v,
        None => {
            return None;
        },
    };
    Some((rssi, snr))
}

/// Tells whether the checksum that a payload carries is the one computed
/// over its data.
pub fn check_integrity(received: u16, computed: u16) -> (r: Result<(), LinkError>)
    ensures
        r == if received == computed {
            Ok::<(), LinkError>(())
        } else {
            Err::<(), LinkError>(LinkError::ChecksumMismatch)
        },
{
    if received == computed {
        Ok(())
    } else {
        Err(LinkError::ChecksumMismatch)
    }
}

/// Puts a message together from the outcome of the packet codec and the
/// text after the payload.
pub fn assemble_message(decoded: Result<SensorDataPacket, DecodeError>, trailer: &[u8]) -> (r:
    Result<ParsedMessage, LinkError>)
    ensures
        r == message_from(decoded, trailer@),
{
    let packet: SensorDataPacket = match decoded {
        Ok(packet) => packet,
        Err(_) => {
            return Err(LinkError::PacketDecodeFailure);
        },
    };
    match parse_link_quality(trailer) {
        Some((rssi, snr)) => Ok(
            ParsedMessage { sensor_data: SensorData::from_packet(&packet), rssi, snr },
        ),
        None => Err(LinkError::TrailerUnparseable),
    }
}

/// Parses a complete frame, telling why where it is discarded.
pub fn parse_frame(buffer: &[u8]) -> (r: Result<ParsedMessage, LinkError>)
    ensures
        r == frame_meaning(buffer@),
{
    let span: PayloadSpan = match locate_payload(buffer) {
        Ok(span) => span,
        Err(e) => {
            return Err(e);
        },
    };
    let data: &[u8] = slice_subrange(buffer, span.start, span.end - 2);
    let received: u16 = join_checksum(buffer[span.end - 2], buffer[span.end - 1]);
    let computed: u16 = calculate_crc16(data);
    match check_integrity(received, computed) {
        Ok(_) => {},
        Err(e) => {
            return Err(e);
        },
    }
    let trailer: &[u8] = slice_subrange(buffer, span.end, buffer.len());
    assemble_message(decode_sensor_packet(data), trailer)
}

/// Parses a complete frame: the message it carries, or nothing where the
/// frame is discarded.
pub fn parse_binary_lora_message(buffer: &[u8]) -> (r: Option<ParsedMessage>)
    ensures
        r == match frame_meaning(buffer@) {
            Ok(message) => Some(message),
            Err(_) => None,
        },
{
    match parse_frame(buffer) {
        Ok(message) => Some(message),
        Err(_) => None,
    }
}

} // verus!
