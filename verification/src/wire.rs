//! The wire format: every request the boot loader understands, as a sequence
//! of bytes, and the reading of its answers.
//!
//! Each request has a model (a `Seq<u8>`) and a builder that is proved to
//! produce exactly that sequence.

use vstd::prelude::*;
use vstd::slice::slice_index_get;
use crate::error::Error;

verus! {

/// The chip family code that a CH559 answers the detect command with.
pub const CHIP_FAMILY: u8 = 0x59;

/// The most payload bytes one read, write or verify command carries.
pub const MAX_CHUNK: usize = 0x38;

/// Length of the answer to every command but identify and read.
pub const STATUS_RESPONSE_LEN: usize = 6;

/// Length of the answer to the identify command.
pub const IDENTIFY_RESPONSE_LEN: usize = 30;

/// Offset of the status byte in every answer.
pub const STATUS_OFFSET: usize = 4;

/// Offset of the payload in the answer to a read command.
pub const PAYLOAD_OFFSET: usize = 6;

/// Size of the data flash region.
pub const DATA_SIZE: usize = 0x400;

/// Where the device maps the data region when a verify command addresses it.
pub const DATA_BASE: u16 = 0xf000;

/// Seconds after which a bulk transfer is given up.
pub const TIMEOUT_SECONDS: u64 = 1;

/// The detect command: opcode, length, and the text that identifies the host
/// tool to the boot loader.
pub open spec fn detect_command() -> Seq<u8> {
    seq![
        0xa1u8, 0x12, 0x00, 0x59, 0x11, 0x4d, 0x43, 0x55, 0x20, 0x49, 0x53, 0x50, 0x20, 0x26, 0x20,
        0x57, 0x43, 0x48, 0x2e, 0x43, 0x4e,
    ]
}

/// The identify command.
pub open spec fn identify_command() -> Seq<u8> {
    seq![0xa7u8, 0x02, 0x00, 0x1f, 0x00]
}

/// The key reset command: a three byte header and 0x30 copies of the
/// checksum seed.
pub open spec fn reset_key_command(sum: u8) -> Seq<u8> {
    seq![0xa3u8, 0x30, 0x00] + Seq::new(0x30, |i: int| sum)
}

/// The command that erases the code region.
pub open spec fn erase_command() -> Seq<u8> {
    seq![0xa4u8, 0x01, 0x00, 0x3c]
}

/// The command that erases the data region.
pub open spec fn erase_data_command() -> Seq<u8> {
    seq![0xa9u8, 0x00, 0x00, 0x00]
}

/// The command that reads `length` bytes of the data region at `offset`.
pub open spec fn read_command(offset: u16, length: nat) -> Seq<u8> {
    seq![0xabu8, 0x00, 0x00, (offset % 256) as u8, (offset / 256) as u8, 0x00, 0x00, length as u8]
}

/// The payload length of a chunk in a request: the chunk rounded up to whole
/// blocks of eight bytes.
pub open spec fn padded_length(length: nat) -> nat {
    (length + 7) / 8 * 8
}

/// The opcode of a chunk command: verify, write to the data region or write
/// to the code region.
pub open spec fn chunk_opcode(write: bool, data_region: bool) -> u8 {
    if !write {
        0xa6
    } else if data_region {
        0xaa
    } else {
        0xa5
    }
}

/// The address a chunk command carries. A verify of the data region
/// addresses it at its place in the device's memory; every other command
/// carries the offset as it is.
pub open spec fn chunk_address(offset: u16, write: bool, data_region: bool) -> int {
    if data_region && !write {
        offset + DATA_BASE
    } else {
        offset as int
    }
}

/// The eight header bytes of a chunk command for `length` bytes of data.
pub open spec fn chunk_header(offset: u16, length: nat, write: bool, data_region: bool) -> Seq<u8> {
    let address = chunk_address(offset, write, data_region);
    seq![
        chunk_opcode(write, data_region),
        (padded_length(length) + 5) as u8,
        0x00,
        (address % 256) as u8,
        (address / 256) as u8,
        0x00,
        0x00,
        padded_length(length) as u8,
    ]
}

/// Byte `i` of a chunk once it is filled up to a whole block: the chunk's
/// own byte, or 0xff behind its end.
pub open spec fn block_byte(data: Seq<u8>, i: int) -> u8 {
    if i < data.len() {
        data[i]
    } else {
        0xff
    }
}

/// Byte `i` of a chunk command's payload: the last byte of every block of
/// eight is sent combined with the chip id by exclusive or, all others as
/// they are.
pub open spec fn payload_byte(data: Seq<u8>, chip_id: u8, i: int) -> u8 {
    if i % 8 == 7 {
        block_byte(data, i) ^ chip_id
    } else {
        block_byte(data, i)
    }
}

/// The payload of a chunk command.
pub open spec fn chunk_payload(data: Seq<u8>, chip_id: u8) -> Seq<u8> {
    Seq::new(padded_length(data.len()), |i: int| payload_byte(data, chip_id, i))
}

/// The command that writes `data` at `offset` (or, with `write` false, has
/// the device compare it with what the flash holds there).
pub open spec fn chunk_command(
    offset: u16,
    data: Seq<u8>,
    write: bool,
    data_region: bool,
    chip_id: u8,
) -> Seq<u8> {
    chunk_header(offset, data.len(), write, data_region) + chunk_payload(data, chip_id)
}

/// What the protocol reads as the answer when `length` bytes were asked for
/// and `received` came in: the first `length` bytes, with zero wherever the
/// transfer delivered nothing.
pub open spec fn response(received: Seq<u8>, length: nat) -> Seq<u8> {
    Seq::new(
        length,
        |i: int|
            if i < received.len() {
                received[i]
            } else {
                0u8
            },
    )
}

/// The status byte of an answer; zero reports success.
pub open spec fn status(answer: Seq<u8>) -> u8 {
    answer[STATUS_OFFSET as int]
}

/// The payload of the answer to a read command for `length` bytes.
pub open spec fn read_payload(answer: Seq<u8>, length: nat) -> Seq<u8> {
    answer.subrange(PAYLOAD_OFFSET as int, PAYLOAD_OFFSET + length)
}

/// The checksum seed an identify answer yields: the sum of four of its
/// bytes, modulo 256.
pub open spec fn checksum_seed(answer: Seq<u8>) -> u8 {
    ((answer[22] + answer[23] + answer[24] + answer[25]) % 256) as u8
}

/// The chip id is worked into the last byte of every block of the payload
/// and nowhere else: the eight header bytes and all other payload bytes are
/// sent as they are, those behind the end of the chunk as 0xff.
pub proof fn lemma_chip_id_on_block_ends_only(
    offset: u16,
    data: Seq<u8>,
    write: bool,
    data_region: bool,
    chip_id: u8,
)
    ensures
        ({
            let request = chunk_command(offset, data, write, data_region, chip_id);
            &&& request.len() == 8 + padded_length(data.len())
            &&& padded_length(data.len()) % 8 == 0
            &&& data.len() <= padded_length(data.len()) < data.len() + 8
            &&& request.take(8) == chunk_header(offset, data.len(), write, data_region)
            &&& forall|i: int|
                0 <= i < padded_length(data.len()) && i % 8 != 7 ==> #[trigger] request[8 + i]
                    == block_byte(data, i)
            &&& forall|i: int|
                0 <= i < padded_length(data.len()) && i % 8 == 7 ==> #[trigger] request[8 + i]
                    == block_byte(data, i) ^ chip_id
        }),
{
    let request = chunk_command(offset, data, write, data_region, chip_id);
    let header = chunk_header(offset, data.len(), write, data_region);
    assert(header.len() == 8);
    assert(request.take(8) =~= header);
    assert forall|i: int| 0 <= i < padded_length(data.len()) implies #[trigger] request[8 + i]
        == payload_byte(data, chip_id, i) by {
        assert(request[8 + i] == chunk_payload(data, chip_id)[i]);
    }
}

/// Builds the detect command.
pub fn detect_request() -> (request: Vec<u8>)
    ensures
        request@ == detect_command(),
{
    let request: Vec<u8> = vec![
        0xa1u8, 0x12, 0x00, 0x59, 0x11, 0x4d, 0x43, 0x55, 0x20, 0x49, 0x53, 0x50, 0x20, 0x26, 0x20,
        0x57, 0x43, 0x48, 0x2e, 0x43, 0x4e,
    ];
    request
}

/// Builds the identify command.
pub fn identify_request() -> (request: Vec<u8>)
    ensures
        request@ == identify_command(),
{
    let request: Vec<u8> = vec![0xa7u8, 0x02, 0x00, 0x1f, 0x00];
    request
}

/// Builds the key reset command for a checksum seed.
pub fn reset_key_request(sum: u8) -> (request: Vec<u8>)
    ensures
        request@ == reset_key_command(sum),
{
    let mut request: Vec<u8> = vec![0xa3u8, 0x30, 0x00];
    let mut i: usize = 0;
    while i < 0x30
        invariant
            i <= 0x30,
            request@ == seq![0xa3u8, 0x30, 0x00] + Seq::new(i as nat, |k: int| sum),
        decreases 0x30 - i,
    {
        request.push(sum);
        i += 1;
    }
    request
}

/// Builds the command that erases the code region.
pub fn erase_request() -> (request: Vec<u8>)
    ensures
        request@ == erase_command(),
{
    let request: Vec<u8> = vec![0xa4u8, 0x01, 0x00, 0x3c];
    request
}

/// Builds the command that erases the data region.
pub fn erase_data_request() -> (request: Vec<u8>)
    ensures
        request@ == erase_data_command(),
{
    let request: Vec<u8> = vec![0xa9u8, 0x00, 0x00, 0x00];
    request
}

/// The low and the high byte of a 16-bit address.
fn address_bytes(address: u16) -> (bytes: (u8, u8))
    ensures
        bytes.0 == address % 256,
        bytes.1 == address / 256,
{
    assert(address as u8 == address % 256) by (bit_vector);
    assert((address >> 8) as u8 == address / 256) by (bit_vector);
    (address as u8, (address >> 8) as u8)
}

/// Builds the command that reads `length` bytes of the data region at
/// `offset`.
pub fn read_chunk_request(offset: u16, length: usize) -> (request: Vec<u8>)
    requires
        length <= MAX_CHUNK,
    ensures
        request@ == read_command(offset, length as nat),
{
    let (low, high) = address_bytes(offset);
    let request: Vec<u8> = vec![0xabu8, 0x00, 0x00, low, high, 0x00, 0x00, length as u8];
    request
}

/// Builds the command that reads `length` bytes of the data region at
/// `offset`. A length above `MAX_CHUNK` is refused with `TooLargeReadSize`.
pub fn read_request(offset: u16, length: usize) -> (request: Result<Vec<u8>, Error>)
    ensures
        length > MAX_CHUNK ==> request == Err::<Vec<u8>, Error>(Error::TooLargeReadSize),
        length <= MAX_CHUNK ==> request is Ok && request->Ok_0@ == read_command(
            offset,
            length as nat,
        ),
{
    if length > MAX_CHUNK {
        return Err(Error::TooLargeReadSize);
    }
    Ok(read_chunk_request(offset, length))
}

/// Rounds a chunk length up to whole blocks of eight bytes.
fn round_up_to_block(length: usize) -> (padded: usize)
    requires
        length <= MAX_CHUNK,
    ensures
        padded == padded_length(length as nat),
        length <= padded <= MAX_CHUNK,
        padded % 8 == 0,
{
    let raised: usize = length + 7;
    assert(raised & !7usize == raised / 8 * 8) by (bit_vector);
    raised & !7
}

/// Builds the command that writes or verifies one chunk of up to
/// `MAX_CHUNK` bytes.
///
/// The request is eight header bytes followed by the chunk, filled up with
/// 0xff to whole blocks of eight bytes. The last byte of each block, and no
/// other byte, is combined with `chip_id` by exclusive or.
pub fn chunk_request(
    offset: u16,
    data: &[u8],
    write: bool,
    data_region: bool,
    chip_id: u8,
) -> (request: Vec<u8>)
    requires
        data@.len() <= MAX_CHUNK,
        chunk_address(offset, write, data_region) <= u16::MAX,
    ensures
        request@ == chunk_command(offset, data@, write, data_region, chip_id),
{
    let opcode: u8 = if !write {
        0xa6
    } else if data_region {
        0xaa
    } else {
        0xa5
    };
    let length = round_up_to_block(data.len());
    let address: u16 = if data_region && !write {
        offset + DATA_BASE
    } else {
        offset
    };
    let (low, high) = address_bytes(address);
    let mut request: Vec<u8> = vec![
        opcode,
        (length + 5) as u8,
        0x00,
        low,
        high,
        0x00,
        0x00,
        length as u8,
    ];
    assert(request@ == chunk_header(offset, data@.len(), write, data_region));
    let ghost header = request@;
    let mut i: usize = 0;
    while i < length
        invariant
            i <= length,
            length == padded_length(data@.len()),
            length <= MAX_CHUNK,
            request@ == header + Seq::new(i as nat, |k: int| payload_byte(data@, chip_id, k)),
        decreases length - i,
    {
        let byte: u8 = if i < data.len() {
            *slice_index_get(data, i)
        } else {
            0xff
        };
        assert((i & 7 == 7) == (i % 8 == 7)) by (bit_vector);
        if i & 7 == 7 {
            request.push(byte ^ chip_id);
        } else {
            request.push(byte);
        }
        i += 1;
    }
    request
}

/// Builds the command that writes or verifies one chunk. A chunk longer than
/// `MAX_CHUNK` is refused with `TooLargeReadSize`.
pub fn write_verify_request(
    offset: u16,
    data: &[u8],
    write: bool,
    data_region: bool,
    chip_id: u8,
) -> (request: Result<Vec<u8>, Error>)
    requires
        chunk_address(offset, write, data_region) <= u16::MAX,
    ensures
        data@.len() > MAX_CHUNK ==> request == Err::<Vec<u8>, Error>(Error::TooLargeReadSize),
        data@.len() <= MAX_CHUNK ==> request is Ok && request->Ok_0@ == chunk_command(
            offset,
            data@,
            write,
            data_region,
            chip_id,
        ),
{
    if data.len() > MAX_CHUNK {
        return Err(Error::TooLargeReadSize);
    }
    Ok(chunk_request(offset, data, write, data_region, chip_id))
}

/// Byte `index` of the answer to a request for `length` bytes.
pub fn response_byte(received: &Vec<u8>, length: usize, index: usize) -> (byte: u8)
    requires
        index < length,
    ensures
        byte == response(received@, length as nat)[index as int],
{
    if index < received.len() {
        received[index]
    } else {
        0
    }
}

/// Whether an answer of `length` bytes reports success.
pub fn status_ok(received: &Vec<u8>, length: usize) -> (ok: bool)
    requires
        STATUS_OFFSET < length,
    ensures
        ok == (status(response(received@, length as nat)) == 0),
{
    response_byte(received, length, STATUS_OFFSET) == 0
}

/// Computes the checksum seed from an identify answer.
pub fn identify_checksum(received: &Vec<u8>) -> (sum: u8)
    ensures
        sum == checksum_seed(response(received@, IDENTIFY_RESPONSE_LEN as nat)),
{
    let a = response_byte(received, IDENTIFY_RESPONSE_LEN, 22);
    let b = response_byte(received, IDENTIFY_RESPONSE_LEN, 23);
    let c = response_byte(received, IDENTIFY_RESPONSE_LEN, 24);
    let d = response_byte(received, IDENTIFY_RESPONSE_LEN, 25);
    a.wrapping_add(b).wrapping_add(c).wrapping_add(d)
}

/// Appends the payload of a read answer to `sink`.
pub fn append_read_payload(sink: &mut Vec<u8>, received: &Vec<u8>, length: usize)
    requires
        length <= MAX_CHUNK,
    ensures
        final(sink)@ == old(sink)@ + read_payload(
            response(received@, (PAYLOAD_OFFSET + length) as nat),
            length as nat,
        ),
{
    let ghost answer = response(received@, (PAYLOAD_OFFSET + length) as nat);
    let mut i: usize = 0;
    while i < length
        invariant
            i <= length <= MAX_CHUNK,
            answer == response(received@, (PAYLOAD_OFFSET + length) as nat),
            sink@ == old(sink)@ + answer.subrange(PAYLOAD_OFFSET as int, PAYLOAD_OFFSET + i),
        decreases length - i,
    {
        let byte = response_byte(received, PAYLOAD_OFFSET + length, PAYLOAD_OFFSET + i);
        sink.push(byte);
        i += 1;
    }
}

} // verus!
