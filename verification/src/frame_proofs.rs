//! What holds of every frame: theorems about the frame parser.

use vstd::prelude::*;
use crate::ascii::{
    decimal_digits,
    first_comma,
    is_digit,
    lemma_decimal_digits,
    lemma_first_comma,
    lemma_first_comma_at,
    lemma_first_comma_take,
    lemma_signed_digits_bytes,
    lemma_signed_round_trip,
    lemma_trim_line_end,
    lemma_unsigned_round_trip,
    signed_digits,
    unsigned_field,
    CARRIAGE_RETURN,
    COMMA,
    LINE_FEED,
    MINUS,
};
use crate::assembler::accumulated;
use crate::checksum::{checksum_from_bytes, crc16_ibm_3740};
use crate::error::LinkError;
use crate::frame::{
    checksum_bytes,
    frame_meaning,
    link_quality,
    payload_span,
    quality_text,
    received_frame,
    reception_tag,
    sealed_payload,
    MIN_FRAME_LEN,
    TAG_LEN,
};
use crate::packet::{sensor_packet_decoding, ParsedMessage, SensorData};

verus! {

/// The payload of a frame lies wholly inside it, after tag, address and
/// length field, and has room for a data byte and the checksum.
pub proof fn lemma_payload_span_bounds(b: Seq<u8>)
    ensures
        payload_span(b) matches Ok((start, end)) ==> TAG_LEN + 2 <= start && start + 3 <= end
            && end <= b.len(),
{
    if b.len() >= MIN_FRAME_LEN {
        lemma_first_comma(b, TAG_LEN as int);
        let first = first_comma(b, TAG_LEN as int);
        if first < b.len() {
            lemma_first_comma(b, first + 1);
        }
    }
}

/// The two checksum bytes of a payload read back as the checksum they were
/// made from.
pub proof fn lemma_checksum_bytes_round_trip(sum: u16)
    ensures
        checksum_from_bytes(checksum_bytes(sum)[0], checksum_bytes(sum)[1]) == sum,
{
}

/// The text with which the radio module reports the quality of the link
/// reads back as the signal strength and signal-to-noise ratio it reports.
pub proof fn lemma_quality_text_round_trip(rssi: i16, snr: i16)
    ensures
        link_quality(quality_text(rssi, snr)) == Some((rssi, snr)),
{
    let r = signed_digits(rssi as int);
    let s = signed_digits(snr as int);
    let t = quality_text(rssi, snr);
    lemma_signed_digits_bytes(rssi as int);
    lemma_signed_digits_bytes(snr as int);
    lemma_signed_round_trip(rssi as int);
    lemma_signed_round_trip(snr as int);
    let second: int = r.len() + 1int;
    assert(t.len() == second + 1 + s.len() + 2);
    assert(t[0] == COMMA);
    assert forall|j: int| 1 <= j < second implies #[trigger] t[j] != COMMA by {
        assert(t[j] == r[j - 1]);
    }
    assert(t[second] == COMMA);
    assert forall|j: int| second + 1 <= j < t.len() implies #[trigger] t[j] != COMMA by {
        if j < second + 1 + s.len() {
            assert(t[j] == s[j - second - 1]);
        }
    }
    lemma_first_comma_at(t, 1, second);
    lemma_first_comma_at(t, second + 1, t.len() as int);
    assert(first_comma(t, 0) == 0);
    assert forall|j: int| 0 <= j < t.len() implies #[trigger] t[j] < 0x80 by {
        if 1 <= j < second {
            assert(t[j] == r[j - 1]);
        } else if second + 1 <= j < second + 1 + s.len() {
            assert(t[j] == s[j - second - 1]);
        }
    }
    assert(t.subrange(1, second) =~= r);
    assert(t.subrange(second + 1, t.len() as int) =~= s + seq![CARRIAGE_RETURN, LINE_FEED]);
    assert(is_digit(s[0]) || s[0] == MINUS);
    lemma_trim_line_end(s);
}

/// Every frame that the radio module hands over for data sent under its
/// checksum is accepted exactly when the data decode as a telemetry packet,
/// and the message then holds that packet's sample and the reported signal
/// strength and signal-to-noise ratio: nothing that a sender seals and the
/// module frames is lost or altered by the parser.
pub proof fn lemma_received_frame_round_trip(
    address: Seq<u8>,
    data: Seq<u8>,
    rssi: i16,
    snr: i16,
)
    requires
        !address.contains(COMMA),
        data.len() >= 1,
        data.len() + 2 <= usize::MAX,
    ensures
        frame_meaning(received_frame(address, data, rssi, snr)) == match sensor_packet_decoding(
            data,
        ) {
            Ok(packet) => Ok::<ParsedMessage, LinkError>(
                ParsedMessage { sensor_data: SensorData::of_packet(packet), rssi, snr },
            ),
            Err(_) => Err::<ParsedMessage, LinkError>(LinkError::PacketDecodeFailure),
        },
{
    let length = (data.len() + 2) as nat;
    let tag = reception_tag();
    let digits = decimal_digits(length);
    let payload = sealed_payload(data);
    let quality = quality_text(rssi, snr);
    let b = received_frame(address, data, rssi, snr);
    lemma_decimal_digits(length);
    lemma_unsigned_round_trip(length);
    lemma_signed_digits_bytes(rssi as int);
    lemma_signed_digits_bytes(snr as int);
    let first: int = TAG_LEN + address.len();
    let second: int = first + 1 + digits.len();
    let start: int = second + 1;
    let end: int = start + length;
    assert(payload.len() == length);
    assert(b.len() == end + quality.len());
    assert(b.subrange(0, TAG_LEN as int) =~= tag);
    assert forall|j: int| TAG_LEN <= j < first implies #[trigger] b[j] != COMMA by {
        assert(b[j] == address[j - TAG_LEN]);
    }
    assert(b[first] == COMMA);
    assert forall|j: int| first + 1 <= j < second implies #[trigger] b[j] != COMMA by {
        assert(b[j] == digits[j - first - 1]);
    }
    assert(b[second] == COMMA);
    lemma_first_comma_at(b, TAG_LEN as int, first);
    lemma_first_comma_at(b, first + 1, second);
    assert(b.subrange(first + 1, second) =~= digits);
    assert(unsigned_field(digits) == Some(length as usize));
    assert(b.subrange(start, end - 2) =~= data);
    assert(b[end - 2] == checksum_bytes(crc16_ibm_3740(data))[0]);
    assert(b[end - 1] == checksum_bytes(crc16_ibm_3740(data))[1]);
    lemma_checksum_bytes_round_trip(crc16_ibm_3740(data));
    assert(b.subrange(end, b.len() as int) =~= quality);
    lemma_quality_text_round_trip(rssi, snr);
}

/// A frame whose length field promises more payload than the frame holds is
/// discarded for that reason, whatever else it contains.
pub proof fn lemma_length_beyond_frame(b: Seq<u8>)
    requires
        b.len() >= MIN_FRAME_LEN,
        b.subrange(0, TAG_LEN as int) == reception_tag(),
        first_comma(b, first_comma(b, TAG_LEN as int) + 1) < b.len(),
        unsigned_field(
            b.subrange(
                first_comma(b, TAG_LEN as int) + 1,
                first_comma(b, first_comma(b, TAG_LEN as int) + 1),
            ),
        ) matches Some(length) && first_comma(b, first_comma(b, TAG_LEN as int) + 1) + 1 + length
            > b.len(),
    ensures
        frame_meaning(b) == Err::<ParsedMessage, LinkError>(LinkError::PayloadLengthExceedsBuffer),
{
}

/// A frame that has lost its end somewhere before the end of its payload is
/// discarded: cut short there, no frame is taken for a whole one.
pub proof fn lemma_truncated_frame_is_discarded(b: Seq<u8>, cut: int)
    requires
        0 <= cut <= b.len(),
        payload_span(b) matches Ok((start, end)) && cut < end,
    ensures
        frame_meaning(b.take(cut)) is Err,
{
    let t = b.take(cut);
    if cut >= MIN_FRAME_LEN {
        assert(t.subrange(0, TAG_LEN as int) =~= b.subrange(0, TAG_LEN as int));
        lemma_first_comma(b, TAG_LEN as int);
        lemma_first_comma_take(b, TAG_LEN as int, cut);
        let first = first_comma(b, TAG_LEN as int);
        if first < cut {
            lemma_first_comma(b, first + 1);
            lemma_first_comma_take(b, first + 1, cut);
            let second = first_comma(b, first + 1);
            if second < cut {
                assert(t.subrange(first + 1, second) =~= b.subrange(first + 1, second));
            }
        }
    }
}

/// A frame that is too long for the receive buffer by so much that the
/// buffer cannot hold its payload is discarded when the buffer is parsed:
/// the bytes that were dropped are not made up for by what was kept.
pub proof fn lemma_overflowing_frame_is_discarded(stream: Seq<u8>, capacity: nat)
    requires
        payload_span(stream) matches Ok((start, end)) && capacity < end,
    ensures
        frame_meaning(accumulated(Seq::<u8>::empty(), stream, capacity)) is Err,
{
    lemma_payload_span_bounds(stream);
    assert(Seq::<u8>::empty() + stream =~= stream);
    lemma_truncated_frame_is_discarded(stream, capacity as int);
}

/// A frame is accepted only if the checksum it carries is the checksum of
/// its data and the data decode as a telemetry packet; the message is then
/// made of that packet and of nothing else in the payload.
pub proof fn lemma_accepted_frame_is_intact(b: Seq<u8>)
    requires
        frame_meaning(b) is Ok,
    ensures
        payload_span(b) is Ok,
        ({
            let (start, end) = payload_span(b)->Ok_0;
            let data = b.subrange(start, end - 2);
            &&& checksum_from_bytes(b[end - 2], b[end - 1]) == crc16_ibm_3740(data)
            &&& sensor_packet_decoding(data) is Ok
            &&& frame_meaning(b)->Ok_0.sensor_data == SensorData::of_packet(
                sensor_packet_decoding(data)->Ok_0,
            )
        }),
{
}

} // verus!
