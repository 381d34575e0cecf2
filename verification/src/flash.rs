//! A model of the flash behind the boot loader, and what the operations of a
//! session achieve on it.
//!
//! The model is the device as the protocol assumes it: a write command stores
//! the bytes of its payload, freed of the chip id, where its address says; a
//! verify command reports whether the flash holds those bytes; a read command
//! returns what the data region holds. Against this device a session is run
//! to its end by `drive`, with a transport that loses nothing.

use vstd::prelude::*;
use crate::chunk::{chunk_at, chunk_count, chunk_length};
use crate::error::Error;
use crate::image::{lemma_target_bounds, refusal, region_image, Source, CODE_SIZE};
use crate::machine::{Exchange, Job, Outcome, Pending, Session, Step};
use crate::wire::{
    block_byte, chunk_address, chunk_command, chunk_header, chunk_payload, padded_length,
    payload_byte, read_command, read_payload, response, status, DATA_BASE, DATA_SIZE, MAX_CHUNK,
    PAYLOAD_OFFSET, STATUS_RESPONSE_LEN,
};

verus! {

/// The number of bytes of flash: the code region with the data region at its
/// end.
pub const FLASH_SIZE: usize = 0xf400;

/// Where a region begins in the flash.
pub open spec fn region_base(data_region: bool) -> int {
    if data_region {
        DATA_BASE as int
    } else {
        0
    }
}

/// An image filled up with 0xff to whole blocks of eight bytes: what the
/// chunk commands of the image carry, taken together.
pub open spec fn blocks(image: Seq<u8>) -> Seq<u8> {
    Seq::new(padded_length(image.len()), |i: int| block_byte(image, i))
}

/// The address that a command carries.
pub open spec fn command_address(request: Seq<u8>) -> int {
    request[3] as int + 256 * (request[4] as int)
}

/// Where the bytes of a chunk command lie in the flash. A write to the data
/// region carries an offset into that region; every other chunk command
/// carries the place itself.
pub open spec fn command_place(request: Seq<u8>) -> int {
    if request[0] == 0xaa {
        DATA_BASE + command_address(request)
    } else {
        command_address(request)
    }
}

/// The bytes that a chunk command stands for: its payload, with the last
/// byte of every block freed of the chip id.
pub open spec fn command_bytes(request: Seq<u8>, chip_id: u8) -> Seq<u8> {
    Seq::new(
        request[7] as nat,
        |i: int|
            if i % 8 == 7 {
                request[8 + i] ^ chip_id
            } else {
                request[8 + i]
            },
    )
}

/// Whether the flash holds `bytes` at `place`.
pub open spec fn holds(memory: Seq<u8>, place: int, bytes: Seq<u8>) -> bool {
    forall|i: int| 0 <= i < bytes.len() ==> #[trigger] memory[place + i] == bytes[i]
}

/// The flash with `bytes` stored at `place`.
pub open spec fn stored(memory: Seq<u8>, place: int, bytes: Seq<u8>) -> Seq<u8> {
    Seq::new(
        memory.len(),
        |i: int|
            if place <= i < place + bytes.len() {
                bytes[i - place]
            } else {
                memory[i]
            },
    )
}

/// An answer that carries a status and nothing else.
pub open spec fn status_answer(code: u8) -> Seq<u8> {
    seq![0u8, 0, 0, 0, code, 0]
}

/// How the device answers a key reset, a read, a write or a verify command.
/// A verify that finds a difference is answered with status 1; any other
/// nonzero status would do. Commands of other kinds lie outside the model:
/// it answers them with status 0, and nothing below relies on that.
pub open spec fn answer_to(memory: Seq<u8>, chip_id: u8, request: Seq<u8>) -> Seq<u8> {
    if request[0] == 0xa3 {
        status_answer(chip_id)
    } else if request[0] == 0xab {
        status_answer(0) + memory.subrange(
            DATA_BASE + command_address(request),
            DATA_BASE + command_address(request) + request[7],
        )
    } else if request[0] == 0xa6 {
        if holds(memory, command_place(request), command_bytes(request, chip_id)) {
            status_answer(0)
        } else {
            status_answer(1)
        }
    } else {
        status_answer(0)
    }
}

/// What the flash holds after a command.
pub open spec fn memory_after(memory: Seq<u8>, chip_id: u8, request: Seq<u8>) -> Seq<u8> {
    if request[0] == 0xa5 || request[0] == 0xaa {
        stored(memory, command_place(request), command_bytes(request, chip_id))
    } else {
        memory
    }
}

/// One exchange carried out in full: the request is sent whole, the device
/// acts on it, and its answer comes back whole.
pub open spec fn exchange(session: Session, memory: Seq<u8>) -> (Session, Step, Seq<u8>) {
    match session.pending {
        Pending::Send(kind) => {
            let request = session.request(kind);
            let sent = session.reply(Outcome::Sent(request.len())).0;
            let answer = answer_to(memory, session.chip_id, request);
            let (next, step) = sent.reply(Outcome::Received(answer));
            (next, step, memory_after(memory, session.chip_id, request))
        },
        _ => (session, session.action(), memory),
    }
}

/// Exchanges carried out one after the other, until the operation ends or
/// `fuel` exchanges are done.
pub open spec fn drive(session: Session, memory: Seq<u8>, fuel: nat) -> (Session, Step, Seq<u8>)
    decreases fuel,
{
    if fuel == 0 || !(session.pending is Send) {
        (session, session.action(), memory)
    } else {
        let (next, step, after) = exchange(session, memory);
        if next.pending is Send {
            drive(next, after, (fuel - 1) as nat)
        } else {
            (next, step, after)
        }
    }
}

/// An operation that has begun, run to its end against the model: the key
/// reset if the operation begins with one, and then its commands.
pub open spec fn run_to_end(begun: (Session, Step), memory: Seq<u8>) -> (Session, Step, Seq<u8>) {
    if begun.0.pending is Send {
        drive(begun.0, memory, chunk_count(begun.0.total(), MAX_CHUNK as nat) + 1)
    } else {
        (begun.0, begun.1, memory)
    }
}

/// A chunk command read back: it names the place of its chunk in the flash,
/// and stands for the bytes of the chunk, filled up with 0xff to whole
/// blocks. The chip id that the sender worked into the payload is gone.
pub proof fn lemma_chunk_command_decodes(
    offset: u16,
    data: Seq<u8>,
    write: bool,
    data_region: bool,
    chip_id: u8,
)
    requires
        data.len() <= MAX_CHUNK,
        chunk_address(offset, write, data_region) <= u16::MAX,
    ensures
        ({
            let request = chunk_command(offset, data, write, data_region, chip_id);
            &&& request.len() == 8 + padded_length(data.len())
            &&& request[0] == (if !write {
                0xa6u8
            } else if data_region {
                0xaau8
            } else {
                0xa5u8
            })
            &&& command_place(request) == region_base(data_region) + offset
            &&& command_bytes(request, chip_id) == blocks(data)
        }),
{
    let request = chunk_command(offset, data, write, data_region, chip_id);
    let header = chunk_header(offset, data.len(), write, data_region);
    let payload = chunk_payload(data, chip_id);
    let address = chunk_address(offset, write, data_region);
    assert(header.len() == 8);
    assert(request[0] == header[0]);
    assert(request[3] == header[3]);
    assert(request[4] == header[4]);
    assert(request[7] == header[7]);
    assert(padded_length(data.len()) <= MAX_CHUNK);
    assert(request[7] == padded_length(data.len()));
    assert(command_address(request) == address);
    assert forall|i: int| 0 <= i < padded_length(data.len()) implies #[trigger] command_bytes(
        request,
        chip_id,
    )[i] == block_byte(data, i) by {
        assert(request[8 + i] == payload[i]);
        assert(payload[i] == payload_byte(data, chip_id, i));
        let byte = block_byte(data, i);
        assert((byte ^ chip_id) ^ chip_id == byte) by (bit_vector);
    }
    assert(command_bytes(request, chip_id) =~= blocks(data));
}

/// The blocks of a chunk are the blocks of the image at the place of the
/// chunk: every chunk but the last is made of whole blocks, and the last one
/// is filled up exactly as the image is.
pub proof fn lemma_blocks_of_chunk(image: Seq<u8>, offset: nat)
    requires
        offset < image.len(),
        offset % (MAX_CHUNK as nat) == 0,
    ensures
        ({
            let size = chunk_length(image.len(), offset, MAX_CHUNK as nat);
            let chunk = chunk_at(image, offset, MAX_CHUNK as nat);
            &&& chunk.len() == size
            &&& 0 < size <= MAX_CHUNK
            &&& offset + padded_length(size) <= padded_length(image.len())
            &&& (offset + size < image.len() ==> padded_length(size) == size)
            &&& (offset + size >= image.len() ==> offset + padded_length(size) == padded_length(
                image.len(),
            ))
            &&& forall|i: int|
                0 <= i < padded_length(size) ==> #[trigger] blocks(chunk)[i] == block_byte(
                    image,
                    offset + i,
                )
        }),
{
    let size = chunk_length(image.len(), offset, MAX_CHUNK as nat);
    let chunk = chunk_at(image, offset, MAX_CHUNK as nat);
    assert(offset % 8 == 0);
    assert forall|i: int| 0 <= i < padded_length(size) implies #[trigger] blocks(chunk)[i]
        == block_byte(image, offset + i) by {
        if i < size {
            assert(chunk[i] == image[offset + i]);
        }
    }
}

/// The state of a write or verify that has come to `offset`.
pub open spec fn writing(
    session: Session,
    write: bool,
    data_region: bool,
    offset: nat,
    image: Seq<u8>,
) -> bool {
    &&& session.wf()
    &&& session.pending == Pending::Send(Exchange::Command)
    &&& session.job == (Job::Write { write, data_region, offset, image })
}

/// One chunk command of a write or verify, carried out against the model.
///
/// A write stores the blocks of the chunk at its place and is accepted. A
/// verify changes nothing and is accepted exactly if the flash holds the
/// blocks of the chunk there. An accepted chunk moves the operation on to
/// the next chunk, or ends it well if it was the last; a chunk that is not
/// accepted ends a verify with `Verify`.
pub proof fn lemma_chunk_exchange(
    session: Session,
    memory: Seq<u8>,
    write: bool,
    data_region: bool,
    offset: nat,
    image: Seq<u8>,
)
    requires
        writing(session, write, data_region, offset, image),
    ensures
        ({
            let size = chunk_length(image.len(), offset, MAX_CHUNK as nat);
            let chunk = chunk_at(image, offset, MAX_CHUNK as nat);
            let place = region_base(data_region) + offset;
            let (next, step, after) = exchange(session, memory);
            let accepted = write || holds(memory, place, blocks(chunk));
            &&& after == (if write {
                stored(memory, place, blocks(chunk))
            } else {
                memory
            })
            &&& accepted && offset + size < image.len() ==> writing(
                next,
                write,
                data_region,
                offset + size,
                image,
            ) && next == (Session {
                job: Job::Write { write, data_region, offset: offset + size, image },
                ..session
            })
            &&& accepted && offset + size >= image.len() ==> next == session.at_rest() && step
                == Step::Finished(Ok(Seq::empty()))
            &&& !accepted ==> next == session.at_rest() && step == Step::Finished(
                Err(Error::Verify),
            )
        }),
{
    let size = chunk_length(image.len(), offset, MAX_CHUNK as nat);
    let chunk = chunk_at(image, offset, MAX_CHUNK as nat);
    let request = session.request(Exchange::Command);
    assert(request == chunk_command(offset as u16, chunk, write, data_region, session.chip_id));
    lemma_chunk_command_decodes(offset as u16, chunk, write, data_region, session.chip_id);
    let sent = session.reply(Outcome::Sent(request.len())).0;
    assert(sent == Session { pending: Pending::Receive(Exchange::Command), ..session });
    assert(sent.response_len(Exchange::Command) == STATUS_RESPONSE_LEN);
    let answer = answer_to(memory, session.chip_id, request);
    assert(response(status_answer(0), 6) =~= status_answer(0));
    assert(response(status_answer(1), 6) =~= status_answer(1));
    assert(status(status_answer(0)) == 0);
    assert(status(status_answer(1)) == 1);
}

/// A write that has come to `offset`, run to its end against the model, ends
/// well. The flash then holds the rest of the image, filled up to whole
/// blocks, at its place, and is unchanged everywhere else.
pub proof fn lemma_write_run(
    session: Session,
    memory: Seq<u8>,
    fuel: nat,
    data_region: bool,
    offset: nat,
    image: Seq<u8>,
)
    requires
        writing(session, true, data_region, offset, image),
        fuel * MAX_CHUNK >= image.len() - offset,
        region_base(data_region) + padded_length(image.len()) <= memory.len(),
    ensures
        ({
            let (end, step, after) = drive(session, memory, fuel);
            let base = region_base(data_region);
            &&& end == session.at_rest()
            &&& step == Step::Finished(Ok(Seq::empty()))
            &&& after.len() == memory.len()
            &&& forall|i: int|
                offset <= i < padded_length(image.len()) ==> #[trigger] after[base + i]
                    == block_byte(image, i)
            &&& forall|i: int|
                0 <= i < memory.len() && !(base + offset <= i < base + padded_length(
                    image.len(),
                )) ==> #[trigger] after[i] == memory[i]
        }),
    decreases fuel,
{
    let size = chunk_length(image.len(), offset, MAX_CHUNK as nat);
    let chunk = chunk_at(image, offset, MAX_CHUNK as nat);
    let base = region_base(data_region);
    lemma_chunk_exchange(session, memory, true, data_region, offset, image);
    lemma_blocks_of_chunk(image, offset);
    let (next, step, after) = exchange(session, memory);
    assert(after == stored(memory, base + offset, blocks(chunk)));
    assert forall|i: int| offset <= i < offset + padded_length(size) implies #[trigger] after[base
        + i] == block_byte(image, i) by {
        assert(blocks(chunk)[i - offset] == block_byte(image, offset + (i - offset)));
    }
    if offset + size < image.len() {
        lemma_write_run(next, after, (fuel - 1) as nat, data_region, offset + size, image);
        let (end, last, finally) = drive(next, after, (fuel - 1) as nat);
        assert forall|i: int| offset <= i < padded_length(image.len()) implies #[trigger] finally[base
            + i] == block_byte(image, i) by {
            if i < offset + size {
                assert(finally[base + i] == after[base + i]);
            }
        }
    }
}

/// A verify that has come to `offset`, run to its end against the model,
/// ends well exactly if the flash holds the rest of the image, filled up to
/// whole blocks, at its place; otherwise it ends with `Verify`. The flash is
/// left as it was.
pub proof fn lemma_verify_run(
    session: Session,
    memory: Seq<u8>,
    fuel: nat,
    data_region: bool,
    offset: nat,
    image: Seq<u8>,
)
    requires
        writing(session, false, data_region, offset, image),
        fuel * MAX_CHUNK >= image.len() - offset,
    ensures
        ({
            let (end, step, after) = drive(session, memory, fuel);
            let base = region_base(data_region);
            let same = forall|i: int|
                offset <= i < padded_length(image.len()) ==> #[trigger] memory[base + i]
                    == block_byte(image, i);
            &&& end == session.at_rest()
            &&& after == memory
            &&& same ==> step == Step::Finished(Ok(Seq::empty()))
            &&& !same ==> step == Step::Finished(Err(Error::Verify))
        }),
    decreases fuel,
{
    let size = chunk_length(image.len(), offset, MAX_CHUNK as nat);
    let chunk = chunk_at(image, offset, MAX_CHUNK as nat);
    let base = region_base(data_region);
    lemma_chunk_exchange(session, memory, false, data_region, offset, image);
    lemma_blocks_of_chunk(image, offset);
    let (next, step, after) = exchange(session, memory);
    let here = holds(memory, base + offset, blocks(chunk));
    if here {
        assert forall|i: int| offset <= i < offset + padded_length(size) implies #[trigger] memory[base
            + i] == block_byte(image, i) by {
            assert(memory[(base + offset) + (i - offset)] == blocks(chunk)[i - offset]);
            assert(blocks(chunk)[i - offset] == block_byte(image, offset + (i - offset)));
        }
        if offset + size < image.len() {
            lemma_verify_run(next, memory, (fuel - 1) as nat, data_region, offset + size, image);
        }
    } else {
        let i = choose|i: int|
            0 <= i < blocks(chunk).len() && #[trigger] memory[(base + offset) + i] != blocks(
                chunk,
            )[i];
        assert(blocks(chunk)[i] == block_byte(image, offset + i));
        assert(memory[base + (offset + i)] != block_byte(image, offset + i));
    }
}

/// The state of a read of the data region that has come to `offset`.
pub open spec fn reading(session: Session, offset: nat, data: Seq<u8>) -> bool {
    &&& session.wf()
    &&& session.pending == Pending::Send(Exchange::Command)
    &&& session.job == (Job::Read { offset, data })
}

/// One read command, carried out against the model: the bytes of the chunk
/// are added to what was read before, and the read moves on to the next
/// chunk, or ends with all it has read if the chunk was the last.
pub proof fn lemma_read_exchange(session: Session, memory: Seq<u8>, offset: nat, data: Seq<u8>)
    requires
        reading(session, offset, data),
        memory.len() == FLASH_SIZE,
    ensures
        ({
            let size = chunk_length(DATA_SIZE as nat, offset, MAX_CHUNK as nat);
            let more = data + memory.subrange(DATA_BASE + offset, DATA_BASE + offset + size);
            let (next, step, after) = exchange(session, memory);
            &&& after == memory
            &&& offset + size < DATA_SIZE ==> reading(next, offset + size, more) && next
                == (Session { job: Job::Read { offset: offset + size, data: more }, ..session })
            &&& offset + size >= DATA_SIZE ==> next == session.at_rest() && step
                == Step::Finished(Ok(more))
        }),
{
    let size = chunk_length(DATA_SIZE as nat, offset, MAX_CHUNK as nat);
    let request = session.request(Exchange::Command);
    assert(request == read_command(offset as u16, size));
    assert(request.len() == 8);
    assert(request[0] == 0xab);
    assert(request[7] == size);
    assert(command_address(request) == offset);
    let sent = session.reply(Outcome::Sent(request.len())).0;
    assert(sent == Session { pending: Pending::Receive(Exchange::Command), ..session });
    assert(sent.response_len(Exchange::Command) == PAYLOAD_OFFSET + size);
    let chunk = memory.subrange(DATA_BASE + offset, DATA_BASE + offset + size);
    let answer = answer_to(memory, session.chip_id, request);
    assert(answer == status_answer(0) + chunk);
    assert(response(answer, PAYLOAD_OFFSET as nat + size) =~= answer);
    assert(status(answer) == 0);
    assert(read_payload(answer, size) =~= chunk);
}

/// A read that has come to `offset`, run to its end against the model, ends
/// with what it had read before and the rest of the data region behind it.
pub proof fn lemma_read_run(
    session: Session,
    memory: Seq<u8>,
    fuel: nat,
    offset: nat,
    data: Seq<u8>,
)
    requires
        reading(session, offset, data),
        memory.len() == FLASH_SIZE,
        fuel * MAX_CHUNK >= DATA_SIZE - offset,
    ensures
        ({
            let (end, step, after) = drive(session, memory, fuel);
            &&& end == session.at_rest()
            &&& after == memory
            &&& step == Step::Finished(
                Ok(data + memory.subrange(DATA_BASE + offset, DATA_BASE + DATA_SIZE)),
            )
        }),
    decreases fuel,
{
    let size = chunk_length(DATA_SIZE as nat, offset, MAX_CHUNK as nat);
    let chunk = memory.subrange(DATA_BASE + offset, DATA_BASE + offset + size);
    lemma_read_exchange(session, memory, offset, data);
    let (next, step, after) = exchange(session, memory);
    if offset + size < DATA_SIZE {
        lemma_read_run(next, memory, (fuel - 1) as nat, offset + size, data + chunk);
        assert((data + chunk) + memory.subrange(
            DATA_BASE + offset + size,
            DATA_BASE + DATA_SIZE,
        ) =~= data + memory.subrange(DATA_BASE + offset, DATA_BASE + DATA_SIZE));
    } else {
        assert(chunk =~= memory.subrange(DATA_BASE + offset, DATA_BASE + DATA_SIZE));
    }
}

/// The key reset, carried out against the model: the device answers with
/// the chip id, the key counts as reset, and the operation goes on with its
/// first command, or ends well if it has none.
pub proof fn lemma_key_exchange(session: Session, memory: Seq<u8>)
    requires
        session.wf(),
        session.pending == Pending::Send(Exchange::ResetKey),
    ensures
        ({
            let (next, step, after) = exchange(session, memory);
            &&& after == memory
            &&& (next, step) == (Session { key_is_reset: true, ..session }).resume()
        }),
{
    let request = session.request(Exchange::ResetKey);
    assert(request.len() == 0x33);
    assert(request[0] == 0xa3);
    let sent = session.reply(Outcome::Sent(request.len())).0;
    assert(sent == Session { pending: Pending::Receive(Exchange::ResetKey), ..session });
    assert(response(status_answer(session.chip_id), 6) =~= status_answer(session.chip_id));
    assert(status(status_answer(session.chip_id)) == session.chip_id);
}

/// Whether an image fits its region.
pub open spec fn fits(image: Seq<u8>, data_region: bool) -> bool {
    image.len() <= CODE_SIZE && (data_region ==> image.len() <= DATA_SIZE)
}

/// The session after an operation that ended: at rest, with the key reset.
pub open spec fn settled(session: Session) -> Session {
    Session { key_is_reset: true, ..session }
}

/// Reading the data region gives the data region: the chunks, read in order
/// of offset and put one behind the other, are its `DATA_SIZE` bytes, none
/// left out and none twice.
pub proof fn theorem_read_gives_data_region(session: Session, memory: Seq<u8>)
    requires
        session.wf(),
        session.ready(),
        memory.len() == FLASH_SIZE,
    ensures
        run_to_end(session.begin(Job::Read { offset: 0, data: Seq::empty() }), memory) == (
            settled(session),
            Step::Finished(Ok(memory.subrange(DATA_BASE as int, DATA_BASE + DATA_SIZE))),
            memory,
        ),
{
    let job = Job::Read { offset: 0, data: Seq::<u8>::empty() };
    let begun = session.begin(job);
    let fuel = chunk_count(DATA_SIZE as nat, MAX_CHUNK as nat);
    let region = memory.subrange(DATA_BASE as int, DATA_BASE + DATA_SIZE);
    assert(Seq::<u8>::empty() + region =~= region);
    if session.key_is_reset {
        assert(settled(session) == session);
        lemma_read_run(begun.0, memory, fuel + 1, 0, Seq::empty());
    } else {
        lemma_key_exchange(begun.0, memory);
        let (next, step, after) = exchange(begun.0, memory);
        lemma_read_run(next, memory, fuel, 0, Seq::empty());
    }
}

/// Writing an image stores it: run against the model, the write ends well,
/// the flash then holds the image, filled up with 0xff to whole blocks, at
/// the start of its region, and is unchanged everywhere else.
pub proof fn theorem_write_stores_image(
    session: Session,
    memory: Seq<u8>,
    data_region: bool,
    image: Seq<u8>,
)
    requires
        session.wf(),
        session.ready(),
        fits(image, data_region),
        memory.len() == FLASH_SIZE,
    ensures
        ({
            let job = Job::Write { write: true, data_region, offset: 0, image };
            let (end, step, after) = run_to_end(session.begin(job), memory);
            let base = region_base(data_region);
            &&& end == settled(session)
            &&& step == Step::Finished(Ok(Seq::empty()))
            &&& after.len() == memory.len()
            &&& holds(after, base, blocks(image))
            &&& forall|i: int|
                0 <= i < memory.len() && !(base <= i < base + padded_length(image.len()))
                    ==> #[trigger] after[i] == memory[i]
        }),
{
    let job = Job::Write { write: true, data_region, offset: 0, image };
    let begun = session.begin(job);
    let fuel = chunk_count(image.len(), MAX_CHUNK as nat);
    let base = region_base(data_region);
    if image.len() == 0 {
        if !session.key_is_reset {
            lemma_key_exchange(begun.0, memory);
        } else {
            assert(settled(session) == session);
        }
    } else {
        if session.key_is_reset {
            assert(settled(session) == session);
            lemma_write_run(begun.0, memory, fuel + 1, data_region, 0, image);
        } else {
            lemma_key_exchange(begun.0, memory);
            let (next, step, after) = exchange(begun.0, memory);
            lemma_write_run(next, memory, fuel, data_region, 0, image);
        }
        let (end, step, after) = run_to_end(begun, memory);
        assert forall|i: int| 0 <= i < blocks(image).len() implies #[trigger] after[base + i]
            == blocks(image)[i] by {
            assert(after[base + i] == block_byte(image, i));
        }
    }
}

/// Verifying an image succeeds if and only if the flash holds it: run
/// against the model, the verify ends well exactly if the flash holds the
/// image, filled up with 0xff to whole blocks, at the start of its region,
/// and with `Verify` otherwise. The flash is left as it was.
pub proof fn theorem_verify_tells_whether_flash_holds_image(
    session: Session,
    memory: Seq<u8>,
    data_region: bool,
    image: Seq<u8>,
)
    requires
        session.wf(),
        session.ready(),
        fits(image, data_region),
        memory.len() == FLASH_SIZE,
    ensures
        ({
            let job = Job::Write { write: false, data_region, offset: 0, image };
            let (end, step, after) = run_to_end(session.begin(job), memory);
            let same = holds(memory, region_base(data_region), blocks(image));
            &&& end == settled(session)
            &&& after == memory
            &&& same ==> step == Step::Finished(Ok(Seq::empty()))
            &&& !same ==> step == Step::Finished(Err(Error::Verify))
        }),
{
    let job = Job::Write { write: false, data_region, offset: 0, image };
    let begun = session.begin(job);
    let fuel = chunk_count(image.len(), MAX_CHUNK as nat);
    let base = region_base(data_region);
    let same = holds(memory, base, blocks(image));
    let each = forall|i: int|
        0 <= i < padded_length(image.len()) ==> #[trigger] memory[base + i] == block_byte(
            image,
            i,
        );
    assert(same == each) by {
        if same {
            assert forall|i: int| 0 <= i < padded_length(image.len()) implies #[trigger] memory[base
                + i] == block_byte(image, i) by {
                assert(memory[base + i] == blocks(image)[i]);
            }
        }
        if each {
            assert forall|i: int| 0 <= i < blocks(image).len() implies #[trigger] memory[base + i]
                == blocks(image)[i] by {
                assert(memory[base + i] == block_byte(image, i));
            }
        }
    }
    if image.len() == 0 {
        if !session.key_is_reset {
            lemma_key_exchange(begun.0, memory);
        } else {
            assert(settled(session) == session);
        }
    } else if session.key_is_reset {
        assert(settled(session) == session);
        lemma_verify_run(begun.0, memory, fuel + 1, data_region, 0, image);
    } else {
        lemma_key_exchange(begun.0, memory);
        let (next, step, after) = exchange(begun.0, memory);
        lemma_verify_run(next, memory, fuel, data_region, 0, image);
    }
}

/// Write, then verify: on the model, a verify of an accepted image that was
/// just written with the same padding and the same seed succeeds, whatever
/// the flash held before and whatever the length of the image.
pub proof fn theorem_write_then_verify(
    session: Session,
    memory: Seq<u8>,
    source: Source,
    data_region: bool,
    fullfill: bool,
)
    requires
        session.wf(),
        session.ready(),
        refusal(source, data_region, fullfill) is None,
        memory.len() == FLASH_SIZE,
    ensures
        ({
            let image = region_image(source, data_region, fullfill, session.seed);
            let (written, first, flash) = run_to_end(
                session.begin_write(source, true, data_region, fullfill),
                memory,
            );
            let (verified, second, left) = run_to_end(
                written.begin_write(source, false, data_region, fullfill),
                flash,
            );
            &&& first == Step::Finished(Ok(Seq::empty()))
            &&& second == Step::Finished(Ok(Seq::empty()))
            &&& left == flash
            &&& holds(flash, region_base(data_region), blocks(image))
        }),
{
    let image = region_image(source, data_region, fullfill, session.seed);
    lemma_target_bounds(source, data_region, fullfill);
    theorem_write_stores_image(session, memory, data_region, image);
    let write = Job::Write { write: true, data_region, offset: 0, image };
    let (written, first, flash) = run_to_end(session.begin(write), memory);
    theorem_verify_tells_whether_flash_holds_image(written, flash, data_region, image);
}

} // verus!
