//! What travels over the bus: the transfer header, the data chunks and the acknowledgements.
use vstd::prelude::*;

use crate::frame::{CanFrame, CanId};

verus! {

/// The number of bytes of the binary in one data frame.
pub const CHUNK_SIZE: usize = 6;

/// The number that marks a frame as an acknowledgement.
pub const ACK_MAGIC: u16 = 0xA55A;

/// The two bytes of `value`, the low one first.
pub open spec fn le16(value: u16) -> Seq<u8> {
    seq![(value % 256) as u8, (value / 256) as u8]
}

/// The four bytes of `value`, the low one first.
pub open spec fn le32(value: u32) -> Seq<u8> {
    seq![
        (value % 256) as u8,
        (value / 256 % 256) as u8,
        (value / 65536 % 256) as u8,
        (value / 16777216) as u8,
    ]
}

/// The number whose bytes are `bytes`, the low one first.
pub open spec fn le_value(bytes: Seq<u8>) -> nat
    decreases bytes.len(),
{
    if bytes.len() == 0 {
        0
    } else {
        bytes.first() as nat + 256 * le_value(bytes.drop_first())
    }
}

/// The number that stands in `data` at `at`, in two bytes, the low one first.
pub open spec fn u16_at(data: Seq<u8>, at: int) -> int {
    data[at] + 0x100 * data[at + 1]
}

/// The number that stands in `data` at `at`, in four bytes, the low one first.
pub open spec fn u32_at(data: Seq<u8>, at: int) -> int {
    data[at] + 0x100 * data[at + 1] + 0x1_0000 * data[at + 2] + 0x100_0000 * data[at + 3]
}

/// Two bytes, the low one first, give back the number they were made from.
pub proof fn le16_round_trip(value: u16)
    ensures
        le_value(le16(value)) == value,
        le16(value).len() == 2,
{
    reveal_with_fuel(le_value, 3);
}

/// Four bytes, the low one first, give back the number they were made from.
pub proof fn le32_round_trip(value: u32)
    ensures
        le_value(le32(value)) == value,
        le32(value).len() == 4,
{
    reveal_with_fuel(le_value, 5);
}

/// The number with the low byte `low` and the high byte `high`.
fn le16_number(low: u8, high: u8) -> (value: u16)
    ensures
        value == le_value(seq![low, high]),
        le16(value) == seq![low, high],
{
    proof {
        reveal_with_fuel(le_value, 3);
        assert(seq![low, high].drop_first() =~= seq![high]);
        assert(seq![high].drop_first() =~= seq![]);
    }
    let value: u16 = high as u16 * 256 + low as u16;
    value
}

/// The frame that opens a transfer: whom it is for, and how many bytes follow.
#[derive(Clone, Copy, Debug, PartialEq, Eq, Structural)]
pub struct DataHeader {
    pub can_id: CanId,
    pub message_size: u32,
}

/// One chunk of the binary, and its place among the chunks.
#[derive(Clone, Copy, Debug)]
pub struct DataFrame {
    pub seq_num: u16,
    pub payload: [u8; CHUNK_SIZE],
}

/// The receiver's answer to a window: the first chunk that it has not got yet.
#[derive(Clone, Copy, Debug, PartialEq, Eq, Structural)]
pub struct AckFrame {
    pub magic: u16,
    pub next_seq_num: u16,
}

/// The data bytes of a transfer header: the number of the receiver's identifier, then the size.
pub open spec fn header_data(raw_id: u32, message_size: u32) -> Seq<u8> {
    le32(raw_id) + le32(message_size)
}

/// The data bytes of a data frame: the sequence number, then the payload.
pub open spec fn chunk_data(seq_num: u16, payload: Seq<u8>) -> Seq<u8> {
    le16(seq_num) + payload
}

/// The data bytes of an acknowledgement: the magic number, then the next sequence number.
pub open spec fn ack_data(next_seq_num: u16) -> Seq<u8> {
    le16(ACK_MAGIC) + le16(next_seq_num)
}

/// The sequence number that `data` acknowledges, if it is the data of an acknowledgement.
pub open spec fn ack_next(data: Seq<u8>) -> Option<u16> {
    if data.len() == 4 && data.take(2) == le16(ACK_MAGIC) {
        Some(le_value(data.skip(2)) as u16)
    } else {
        None
    }
}

impl DataHeader {
    /// The header as a frame that carries the identifier `can_id`.
    pub fn to_can_frame(&self, can_id: CanId) -> (frame: CanFrame)
        ensures
            frame@.id == can_id,
            frame@.data == header_data(self.can_id.number(), self.message_size),
            frame@.data.len() == 8,
            self.can_id matches CanId::Standard(number) ==> u32_at(frame@.data, 0) == number,
            self.can_id matches CanId::Extended(number) ==> u32_at(frame@.data, 0) == number,
            u32_at(frame@.data, 4) == self.message_size,
    {
        let id: u32 = self.can_id.raw();
        let size: u32 = self.message_size;
        let data: [u8; 8] = [
            (id % 256) as u8,
            (id / 256 % 256) as u8,
            (id / 65536 % 256) as u8,
            (id / 16777216) as u8,
            (size % 256) as u8,
            (size / 256 % 256) as u8,
            (size / 65536 % 256) as u8,
            (size / 16777216) as u8,
        ];
        assert(data@ =~= header_data(id, size));
        proof {
            header_bytes_spell_numbers(id, size);
        }
        CanFrame::new(can_id, data.as_slice()).unwrap()
    }
}

impl DataFrame {
    /// The chunk as a frame that carries the identifier `can_id`. The size of the whole message
    /// is in the transfer header, not here.
    pub fn to_can_frame(&self, can_id: CanId) -> (frame: CanFrame)
        ensures
            frame@.id == can_id,
            frame@.data == chunk_data(self.seq_num, self.payload@),
            frame@.data.len() == 8,
            u16_at(frame@.data, 0) == self.seq_num,
            forall|i: int| 0 <= i < 6 ==> #[trigger] frame@.data[2 + i] == self.payload@[i],
    {
        let data: [u8; 8] = [
            (self.seq_num % 256) as u8,
            (self.seq_num / 256) as u8,
            self.payload[0],
            self.payload[1],
            self.payload[2],
            self.payload[3],
            self.payload[4],
            self.payload[5],
        ];
        assert(data@ =~= chunk_data(self.seq_num, self.payload@));
        CanFrame::new(can_id, data.as_slice()).unwrap()
    }
}

impl AckFrame {
    /// Reads an acknowledgement: four bytes, the first two of them the magic number.
    pub fn new_from_frame(frame: CanFrame) -> (ack: Result<AckFrame, &'static str>)
        ensures
            ack is Ok <==> ack_next(frame@.data) is Some,
            ack is Ok <==> frame@.data.len() == 4 && frame@.data[0] == 0x5A && frame@.data[1]
                == 0xA5,
            ack matches Ok(read) ==> read.next_seq_num == u16_at(frame@.data, 2),
            ack matches Ok(read) ==> read.magic == ACK_MAGIC && ack_next(frame@.data) == Some(
                read.next_seq_num,
            ),
            ack matches Err(reason) ==> reason@ == (if frame@.data.len() != 4 {
                "ack frame must be 4 bytes"@
            } else {
                "ack frame has invalid magic number"@
            }),
    {
        let data: &[u8] = frame.data();
        if data.len() != 4 {
            return Err("ack frame must be 4 bytes");
        }
        assert(data@.take(2) =~= seq![data@[0], data@[1]]);
        assert(data@.skip(2) =~= seq![data@[2], data@[3]]);
        let magic: u16 = le16_number(data[0], data[1]);
        if magic != ACK_MAGIC {
            proof {
                le16_round_trip(ACK_MAGIC);
                ack_is_read_byte_by_byte(data@);
            }
            return Err("ack frame has invalid magic number");
        }
        let next_seq_num: u16 = le16_number(data[2], data[3]);
        proof {
            ack_is_read_byte_by_byte(data@);
        }
        Ok(AckFrame { magic, next_seq_num })
    }
}

proof fn le32_spells_number(value: u32)
    ensures
        le32(value).len() == 4,
        u32_at(le32(value), 0) == value,
{
    let low = value % 256;
    let mid = value / 256;
    let high = value / 65536;
    let top = value / 16777216;
    assert(mid / 256 == high);
    assert(high / 256 == top);
    assert(value == low + 256 * mid);
    assert(mid == mid % 256 + 256 * high);
    assert(high == high % 256 + 256 * top);
    let bytes = le32(value);
    assert(bytes[0] == low && bytes[1] == mid % 256 && bytes[2] == high % 256 && bytes[3] == top);
}

/// The eight bytes of a header spell the number of the identifier and then the message size.
pub proof fn header_bytes_spell_numbers(raw_id: u32, message_size: u32)
    ensures
        header_data(raw_id, message_size).len() == 8,
        u32_at(header_data(raw_id, message_size), 0) == raw_id,
        u32_at(header_data(raw_id, message_size), 4) == message_size,
{
    le32_spells_number(raw_id);
    le32_spells_number(message_size);
    let data = header_data(raw_id, message_size);
    assert(data[0] == le32(raw_id)[0] && data[1] == le32(raw_id)[1]);
    assert(data[2] == le32(raw_id)[2] && data[3] == le32(raw_id)[3]);
    assert(data[4] == le32(message_size)[0] && data[5] == le32(message_size)[1]);
    assert(data[6] == le32(message_size)[2] && data[7] == le32(message_size)[3]);
}

/// The bytes of a data frame spell its sequence number, and the payload follows unchanged.
pub proof fn chunk_bytes_spell_number(seq_num: u16, payload: Seq<u8>)
    ensures
        chunk_data(seq_num, payload).len() == 2 + payload.len(),
        u16_at(chunk_data(seq_num, payload), 0) == seq_num,
        forall|i: int|
            0 <= i < payload.len() ==> #[trigger] chunk_data(seq_num, payload)[2 + i]
                == payload[i],
{
}

/// The four bytes of an acknowledgement are `5A A5` and then the number.
pub proof fn ack_bytes_spell_number(next_seq_num: u16)
    ensures
        ack_data(next_seq_num).len() == 4,
        ack_data(next_seq_num)[0] == 0x5A,
        ack_data(next_seq_num)[1] == 0xA5,
        u16_at(ack_data(next_seq_num), 2) == next_seq_num,
{
}

/// Data is an acknowledgement if and only if it is four bytes that start with `5A A5`, and the
/// other two are the number it acknowledges.
pub proof fn ack_is_read_byte_by_byte(data: Seq<u8>)
    ensures
        ack_next(data) is Some <==> data.len() == 4 && data[0] == 0x5A && data[1] == 0xA5,
        ack_next(data) matches Some(next) ==> next == u16_at(data, 2),
{
    assert(le16(ACK_MAGIC) =~= seq![0x5Au8, 0xA5u8]);
    if data.len() == 4 {
        assert(data.take(2) =~= seq![data[0], data[1]]);
        let tail = data.skip(2);
        reveal_with_fuel(le_value, 3);
        assert(tail =~= seq![data[2], data[3]]);
        assert(tail.drop_first() =~= seq![data[3]]);
        assert(tail.drop_first().drop_first() =~= seq![]);
        if data.take(2) == le16(ACK_MAGIC) {
            assert(data[0] == data.take(2)[0]);
            assert(data[1] == data.take(2)[1]);
        }
    }
}

/// A header frame gives back the number of the identifier and the message size.
pub proof fn header_round_trip(raw_id: u32, message_size: u32)
    ensures
        header_data(raw_id, message_size).len() == 8,
        le_value(header_data(raw_id, message_size).take(4)) == raw_id,
        le_value(header_data(raw_id, message_size).skip(4)) == message_size,
{
    le32_round_trip(raw_id);
    le32_round_trip(message_size);
    assert(header_data(raw_id, message_size).take(4) =~= le32(raw_id));
    assert(header_data(raw_id, message_size).skip(4) =~= le32(message_size));
}

/// A data frame gives back its sequence number and its payload.
pub proof fn chunk_round_trip(seq_num: u16, payload: Seq<u8>)
    ensures
        chunk_data(seq_num, payload).len() == 2 + payload.len(),
        le_value(chunk_data(seq_num, payload).take(2)) == seq_num,
        chunk_data(seq_num, payload).skip(2) == payload,
{
    le16_round_trip(seq_num);
    assert(chunk_data(seq_num, payload).take(2) =~= le16(seq_num));
    assert(chunk_data(seq_num, payload).skip(2) =~= payload);
}

/// An acknowledgement is read as the number it was made from, and nothing else is read so.
pub proof fn ack_round_trip(data: Seq<u8>, next_seq_num: u16)
    ensures
        ack_next(data) == Some(next_seq_num) <==> data == ack_data(next_seq_num),
{
    le16_round_trip(next_seq_num);
    if data == ack_data(next_seq_num) {
        assert(data.take(2) =~= le16(ACK_MAGIC));
        assert(data.skip(2) =~= le16(next_seq_num));
    }
    if ack_next(data) == Some(next_seq_num) {
        let tail = data.skip(2);
        reveal_with_fuel(le_value, 3);
        assert(tail =~= seq![tail[0], tail[1]]);
        assert(tail.drop_first() =~= seq![tail[1]]);
        assert(tail.drop_first().drop_first() =~= seq![]);
        assert(tail =~= le16(next_seq_num));
        assert(data =~= data.take(2) + tail);
    }
}

} // verus!
