//! The protocol as a transition system.
//!
//! A `Session` is the mathematical state of a connection. `Session::reply`
//! says, for every state and every outcome that the driver can report, what
//! the next state is and what the driver is asked to do then. The executable
//! session is proved to follow it step for step.

use vstd::prelude::*;
use crate::chunk::{chunk_at, chunk_length};
use crate::descriptor::{setup_of, Device, Setup};
use crate::error::{Error, UsbError};
use crate::image::{refusal, region_image, Source, CODE_SIZE};
use crate::version::version_text;
use crate::wire::{
    checksum_seed, chunk_command, detect_command, erase_command,
    erase_data_command, identify_command, read_command, read_payload, reset_key_command, response,
    status, CHIP_FAMILY, DATA_SIZE, IDENTIFY_RESPONSE_LEN, MAX_CHUNK, PAYLOAD_OFFSET,
    STATUS_RESPONSE_LEN,
};

verus! {

/// The request and answer pairs of the protocol.
#[derive(Debug, Clone, Copy, PartialEq, Eq)]
pub enum Exchange {
    /// Ask for the chip family.
    Detect,
    /// Ask for the boot loader version and the checksum seed.
    Identify,
    /// Reset the session key.
    ResetKey,
    /// The current command of the operation in progress.
    Command,
}

/// What the session is waiting for.
#[derive(Debug, Clone, Copy, PartialEq, Eq)]
pub enum Pending {
    /// Nothing: no operation is in progress.
    Nothing,
    /// The outcome of activating the configuration.
    Activate,
    /// The outcome of claiming the interface.
    Claim,
    /// The outcome of sending the request of an exchange.
    Send(Exchange),
    /// The answer of an exchange.
    Receive(Exchange),
}

/// The operation in progress, with how far it has come.
pub enum Job {
    /// None.
    Rest,
    /// Set-up and handshake.
    Connect,
    /// Erasing the code region.
    Erase,
    /// Erasing the data region.
    EraseData,
    /// Reading the data region: `data` holds the bytes below `offset`.
    Read { offset: nat, data: Seq<u8> },
    /// Writing `image` (or, with `write` false, verifying it): the chunks
    /// below `offset` have been accepted.
    Write { write: bool, data_region: bool, offset: nat, image: Seq<u8> },
}

/// The outcome that the driver reports, as a mathematical value.
pub enum Outcome {
    /// The request or transfer failed.
    Failed(UsbError),
    /// Activating or claiming succeeded.
    Completed,
    /// The bulk OUT transfer accepted this many bytes.
    Sent(nat),
    /// The bulk IN transfer delivered these bytes.
    Received(Seq<u8>),
}

/// What the driver is asked to do, as a mathematical value.
pub enum Step {
    /// Nothing: no operation is in progress.
    Idle,
    /// Activate the configuration with this number.
    Activate(u8),
    /// Claim the interface with this number.
    Claim(u8),
    /// Send `data` to the bulk OUT endpoint at `endpoint`.
    Send { endpoint: u8, data: Seq<u8> },
    /// Read `length` bytes from the bulk IN endpoint at `endpoint`.
    Receive { endpoint: u8, length: nat },
    /// The operation has ended: with the bytes it read (none, unless it was a
    /// read of the data region) or with the failure that ended it.
    Finished(Result<Seq<u8>, Error>),
}

/// The state of a connection.
pub struct Session {
    /// The configuration, interface and endpoints chosen at set-up.
    pub setup: Setup,
    /// The chip family code that the device answered detect with.
    pub chip_id: u8,
    /// The boot loader version as text.
    pub version: Seq<char>,
    /// The checksum seed taken from the identify answer.
    pub sum: u8,
    /// Whether the session key has been reset.
    pub key_is_reset: bool,
    /// The seed of the filler for padded images.
    pub seed: i64,
    /// Whether the handshake has succeeded.
    pub connected: bool,
    /// The operation in progress.
    pub job: Job,
    /// What the session is waiting for.
    pub pending: Pending,
}

impl Session {
    /// The state that set-up starts from.
    pub open spec fn opening(setup: Setup) -> Session {
        Session {
            setup,
            chip_id: 0,
            version: "unknown"@,
            sum: 0,
            key_is_reset: false,
            seed: 1,
            connected: false,
            job: Job::Connect,
            pending: Pending::Activate,
        }
    }

    /// The state of a session that is bound to no device: nothing is known
    /// of a device, nothing has been negotiated and nothing is in progress.
    /// It stands in for a session while its state is being replaced.
    pub open spec fn detached() -> Session {
        Session {
            setup: Setup { configuration: 0, interface: 0, ep_in: 0, ep_out: 0 },
            chip_id: 0,
            version: Seq::empty(),
            sum: 0,
            key_is_reset: false,
            seed: 1,
            connected: false,
            job: Job::Rest,
            pending: Pending::Nothing,
        }
    }

    /// What opening a session on a device gives: the opening state, or the
    /// reason why no session can be set up on it. No device at all is
    /// `NotFound`; everything else is a failure of set-up.
    pub open spec fn open(device: Option<Device>) -> Result<Session, Error> {
        match device {
            None => Err(Error::NotFound),
            Some(device) => match setup_of(device) {
                Ok(setup) => Ok(Session::opening(setup)),
                Err(e) => Err(e.on_initialize()),
            },
        }
    }

    /// Whether an operation can begin: the handshake has succeeded and
    /// nothing is in progress.
    pub open spec fn ready(self) -> bool {
        self.connected && self.job is Rest
    }

    /// The command that the operation in progress is at.
    pub open spec fn command(self) -> Seq<u8> {
        match self.job {
            Job::Erase => erase_command(),
            Job::EraseData => erase_data_command(),
            Job::Read { offset, data } => read_command(
                offset as u16,
                chunk_length(DATA_SIZE as nat, offset, MAX_CHUNK as nat),
            ),
            Job::Write { write, data_region, offset, image } => chunk_command(
                offset as u16,
                chunk_at(image, offset, MAX_CHUNK as nat),
                write,
                data_region,
                self.chip_id,
            ),
            _ => Seq::empty(),
        }
    }

    /// The request of an exchange.
    pub open spec fn request(self, exchange: Exchange) -> Seq<u8> {
        match exchange {
            Exchange::Detect => detect_command(),
            Exchange::Identify => identify_command(),
            Exchange::ResetKey => reset_key_command(self.sum),
            Exchange::Command => self.command(),
        }
    }

    /// The length of the answer to an exchange.
    pub open spec fn response_len(self, exchange: Exchange) -> nat {
        match exchange {
            Exchange::Identify => IDENTIFY_RESPONSE_LEN as nat,
            Exchange::Command => match self.job {
                Job::Read { offset, data } => PAYLOAD_OFFSET as nat + chunk_length(
                    DATA_SIZE as nat,
                    offset,
                    MAX_CHUNK as nat,
                ),
                _ => STATUS_RESPONSE_LEN as nat,
            },
            _ => STATUS_RESPONSE_LEN as nat,
        }
    }

    /// What the driver is asked to do in this state.
    pub open spec fn action(self) -> Step {
        match self.pending {
            Pending::Nothing => Step::Idle,
            Pending::Activate => Step::Activate(self.setup.configuration),
            Pending::Claim => Step::Claim(self.setup.interface),
            Pending::Send(exchange) => Step::Send {
                endpoint: self.setup.ep_out,
                data: self.request(exchange),
            },
            Pending::Receive(exchange) => Step::Receive {
                endpoint: self.setup.ep_in,
                length: self.response_len(exchange),
            },
        }
    }

    /// This state with `pending` awaited, and the action that asks for it.
    pub open spec fn await_for(self, pending: Pending) -> (Session, Step) {
        let next = Session { pending, ..self };
        (next, next.action())
    }

    /// A reply that answers nothing that is awaited changes nothing: the
    /// driver is asked again for what is pending.
    pub open spec fn ignore(self) -> (Session, Step) {
        (self, self.action())
    }

    /// This state with no operation in progress.
    pub open spec fn at_rest(self) -> Session {
        Session { job: Job::Rest, pending: Pending::Nothing, ..self }
    }

    /// The operation in progress ends well, with `data` as its result.
    pub open spec fn succeed(self, data: Seq<u8>) -> (Session, Step) {
        (self.at_rest(), Step::Finished(Ok(data)))
    }

    /// The failure as it is reported. A failure during set-up is marked as
    /// such, and one of the detect or identify exchange also as a failure on
    /// detect; the failure of any later operation is reported as it is.
    pub open spec fn reported(self, error: Error) -> Error {
        if self.job is Connect {
            match self.pending {
                Pending::Send(_) | Pending::Receive(_) => error.on_detect().on_initialize(),
                _ => error.on_initialize(),
            }
        } else {
            error
        }
    }

    /// The operation in progress ends with a failure. Nothing is retried and
    /// nothing is rolled back.
    pub open spec fn fail(self, error: Error) -> (Session, Step) {
        (self.at_rest(), Step::Finished(Err(self.reported(error))))
    }

    /// Goes on with the operation once the key is reset and the commands
    /// before the current offset are done: the next command is sent, or the
    /// operation ends if none is left.
    pub open spec fn resume(self) -> (Session, Step) {
        match self.job {
            Job::Read { offset, data } => if offset >= DATA_SIZE {
                self.succeed(data)
            } else {
                self.await_for(Pending::Send(Exchange::Command))
            },
            Job::Write { write, data_region, offset, image } => if offset >= image.len() {
                self.succeed(Seq::empty())
            } else {
                self.await_for(Pending::Send(Exchange::Command))
            },
            _ => self.await_for(Pending::Send(Exchange::Command)),
        }
    }

    /// Begins an operation. Unless the session is ready this changes
    /// nothing. The key is reset first if it has not been reset on this
    /// connection, and only then.
    pub open spec fn begin(self, job: Job) -> (Session, Step) {
        if !self.ready() {
            self.ignore()
        } else if self.key_is_reset {
            Session { job, ..self }.resume()
        } else {
            Session { job, ..self }.await_for(Pending::Send(Exchange::ResetKey))
        }
    }

    /// Begins to write or to verify an image. An image that is refused ends
    /// the operation before anything is sent.
    pub open spec fn begin_write(
        self,
        source: Source,
        write: bool,
        data_region: bool,
        fullfill: bool,
    ) -> (Session, Step) {
        if !self.ready() {
            self.ignore()
        } else {
            match refusal(source, data_region, fullfill) {
                Some(e) => (self, Step::Finished(Err(e))),
                None => self.begin(
                    Job::Write {
                        write,
                        data_region,
                        offset: 0,
                        image: region_image(source, data_region, fullfill, self.seed),
                    },
                ),
            }
        }
    }

    /// The step after the answer to the current command has come in.
    pub open spec fn after_command(self, answer: Seq<u8>) -> (Session, Step) {
        match self.job {
            Job::Read { offset, data } => if status(answer) == 0 {
                let length = chunk_length(DATA_SIZE as nat, offset, MAX_CHUNK as nat);
                Session {
                    job: Job::Read {
                        offset: offset + length,
                        data: data + read_payload(answer, length),
                    },
                    ..self
                }.resume()
            } else {
                self.fail(Error::Read)
            },
            Job::Write { write, data_region, offset, image } => if status(answer) == 0 {
                let length = chunk_length(image.len(), offset, MAX_CHUNK as nat);
                Session {
                    job: Job::Write { write, data_region, offset: offset + length, image },
                    ..self
                }.resume()
            } else if write {
                self.fail(Error::Flash)
            } else {
                self.fail(Error::Verify)
            },
            _ => if status(answer) == 0 {
                self.succeed(Seq::empty())
            } else {
                self.fail(Error::Erase)
            },
        }
    }

    /// The step after the answer to an exchange has come in.
    pub open spec fn after_answer(self, exchange: Exchange, answer: Seq<u8>) -> (Session, Step) {
        match exchange {
            Exchange::Detect => if status(answer) == CHIP_FAMILY {
                Session { chip_id: status(answer), ..self }.await_for(
                    Pending::Send(Exchange::Identify),
                )
            } else {
                self.fail(Error::InvalidResponse)
            },
            Exchange::Identify => Session {
                version: version_text(answer[19], answer[20], answer[21]),
                sum: checksum_seed(answer),
                connected: true,
                ..self
            }.succeed(Seq::empty()),
            Exchange::ResetKey => if status(answer) == self.chip_id {
                Session { key_is_reset: true, ..self }.resume()
            } else {
                self.fail(Error::ResetKey)
            },
            Exchange::Command => self.after_command(answer),
        }
    }

    /// The transition: the state after the driver has reported `outcome`,
    /// and what the driver is asked to do next.
    pub open spec fn reply(self, outcome: Outcome) -> (Session, Step) {
        match self.pending {
            Pending::Nothing => self.ignore(),
            Pending::Activate => match outcome {
                Outcome::Completed => self.await_for(Pending::Claim),
                Outcome::Failed(_) => self.fail(Error::ActivateConfiguration),
                _ => self.ignore(),
            },
            Pending::Claim => match outcome {
                Outcome::Completed => self.await_for(Pending::Send(Exchange::Detect)),
                Outcome::Failed(_) => self.fail(Error::ClaimInterface),
                _ => self.ignore(),
            },
            Pending::Send(exchange) => match outcome {
                Outcome::Sent(count) => if count == self.request(exchange).len() {
                    self.await_for(Pending::Receive(exchange))
                } else {
                    self.fail(Error::BulkWriteAll)
                },
                Outcome::Failed(_) => self.fail(Error::BulkWrite),
                _ => self.ignore(),
            },
            Pending::Receive(exchange) => match outcome {
                Outcome::Received(bytes) => self.after_answer(
                    exchange,
                    response(bytes, self.response_len(exchange)),
                ),
                Outcome::Failed(cause) => self.fail(Error::BulkRead(cause)),
                _ => self.ignore(),
            },
        }
    }

    /// Whether what is awaited belongs to the operation in progress.
    pub open spec fn pending_fits(self) -> bool {
        match self.job {
            Job::Rest => self.pending is Nothing,
            Job::Connect => match self.pending {
                Pending::Activate | Pending::Claim => true,
                Pending::Send(exchange) | Pending::Receive(exchange) => exchange is Detect
                    || exchange is Identify,
                Pending::Nothing => false,
            },
            _ => match self.pending {
                Pending::Send(exchange) | Pending::Receive(exchange) => exchange is ResetKey
                    || exchange is Command,
                _ => false,
            },
        }
    }

    /// The number of bytes that the operation in progress has done.
    pub open spec fn done(self) -> nat {
        match self.job {
            Job::Read { offset, data } => offset,
            Job::Write { write, data_region, offset, image } => offset,
            _ => 0,
        }
    }

    /// The number of bytes that the operation in progress has to do.
    pub open spec fn total(self) -> nat {
        match self.job {
            Job::Read { offset, data } => DATA_SIZE as nat,
            Job::Write { write, data_region, offset, image } => image.len(),
            _ => 0,
        }
    }

    /// Whether the operation in progress has not run past its region, and
    /// the region not past its flash.
    pub open spec fn bounded(self) -> bool {
        match self.job {
            Job::Read { offset, data } => offset <= DATA_SIZE,
            Job::Write { write, data_region, offset, image } => offset <= image.len()
                && image.len() <= CODE_SIZE && (data_region ==> image.len() <= DATA_SIZE),
            _ => true,
        }
    }

    /// Whether the operation in progress stands at the start of a chunk,
    /// with all chunks before it done.
    pub open spec fn at_chunk(self) -> bool {
        match self.job {
            Job::Read { offset, data } => offset % (MAX_CHUNK as nat) == 0 && data.len() == offset,
            Job::Write { write, data_region, offset, image } => offset % (MAX_CHUNK as nat) == 0,
            _ => true,
        }
    }

    /// Whether a chunk of the operation in progress is still to be done.
    pub open spec fn chunk_left(self) -> bool {
        match self.job {
            Job::Read { offset, data } => offset < DATA_SIZE,
            Job::Write { write, data_region, offset, image } => offset < image.len(),
            _ => true,
        }
    }

    /// Whether a command of the operation in progress is under way.
    pub open spec fn commanding(self) -> bool {
        match self.pending {
            Pending::Send(exchange) | Pending::Receive(exchange) => exchange is Command,
            _ => false,
        }
    }

    /// Whether the key has been reset whenever a command of an operation is
    /// under way, and is not being reset again once it has been.
    pub open spec fn key_fits(self) -> bool {
        match self.pending {
            Pending::Send(exchange) | Pending::Receive(exchange) => match exchange {
                Exchange::ResetKey => !self.key_is_reset,
                Exchange::Command => self.key_is_reset,
                _ => true,
            },
            _ => true,
        }
    }

    /// The invariant of every session: what is awaited belongs to the
    /// operation in progress; that operation stands at a chunk inside its
    /// region, and no command is under way for a chunk behind its end; only
    /// set-up runs on a session that is not connected; commands are sent
    /// under a reset key only, and the key is reset once.
    pub open spec fn wf(self) -> bool {
        &&& self.pending_fits()
        &&& self.bounded()
        &&& self.at_chunk()
        &&& (self.commanding() ==> self.chunk_left())
        &&& self.key_fits()
        &&& (self.job is Connect ==> !self.connected)
        &&& (!(self.job is Connect) && !(self.job is Rest) ==> self.connected)
    }
}

/// Whether a job is one that an operation can begin with: an erase, a read
/// of the data region from its start, or a write or verify from the start of
/// an image that fits its region.
pub open spec fn fresh(job: Job) -> bool {
    match job {
        Job::Erase | Job::EraseData => true,
        Job::Read { offset, data } => offset == 0 && data.len() == 0,
        Job::Write { write, data_region, offset, image } => offset == 0 && image.len() <= CODE_SIZE
            && (data_region ==> image.len() <= DATA_SIZE),
        _ => false,
    }
}

/// Opening a session establishes the invariant.
pub proof fn lemma_open_wf(device: Option<Device>)
    ensures
        Session::open(device) matches Ok(session) ==> session.wf(),
{
}

/// Beginning an operation preserves the invariant.
pub proof fn lemma_begin_keeps_wf(session: Session, job: Job)
    requires
        session.wf(),
        fresh(job),
    ensures
        session.begin(job).0.wf(),
{
}

/// Every transition preserves the invariant.
pub proof fn lemma_reply_keeps_wf(session: Session, outcome: Outcome)
    requires
        session.wf(),
    ensures
        session.reply(outcome).0.wf(),
{
    if session.commanding() {
        match session.job {
            Job::Read { offset, data } => {
                lemma_next_chunk(DATA_SIZE as nat, offset);
            },
            Job::Write { write, data_region, offset, image } => {
                lemma_next_chunk(image.len(), offset);
            },
            _ => {},
        }
    }
}

/// The key is reset at most once on a connection: once it is reset it stays
/// reset, whatever the driver reports, and neither a transition nor the
/// beginning of an operation asks for a key reset again.
pub proof fn lemma_key_is_reset_at_most_once(session: Session, outcome: Outcome, job: Job)
    requires
        session.wf(),
        session.key_is_reset,
    ensures
        session.reply(outcome).0.key_is_reset,
        session.reply(outcome).0.pending != Pending::Send(Exchange::ResetKey),
        session.begin(job).0.key_is_reset,
        session.begin(job).0.pending != Pending::Send(Exchange::ResetKey),
{
}

/// An answer to the key reset that does not carry the chip id ends the
/// operation with `ResetKey` and leaves the key unset, so that the next
/// operation begins with a key reset again.
pub proof fn lemma_key_mismatch_leaves_key_unset(session: Session, bytes: Seq<u8>, job: Job)
    requires
        session.wf(),
        session.pending == Pending::Receive(Exchange::ResetKey),
        status(response(bytes, STATUS_RESPONSE_LEN as nat)) != session.chip_id,
        fresh(job),
    ensures
        session.reply(Outcome::Received(bytes)) == (
            session.at_rest(),
            Step::Finished(Err(Error::ResetKey)),
        ),
        !session.at_rest().key_is_reset,
        session.at_rest().ready(),
        session.at_rest().begin(job).0.pending == Pending::Send(Exchange::ResetKey),
{
}

/// Once the handshake has succeeded, the identity of the device is settled:
/// no operation and no outcome changes the endpoints, the chip id, the
/// version or the checksum seed, and the session stays connected.
pub proof fn lemma_identity_is_settled(session: Session, outcome: Outcome, job: Job)
    requires
        session.wf(),
        session.connected,
    ensures
        ({
            let next = session.reply(outcome).0;
            &&& next.connected
            &&& next.setup == session.setup
            &&& next.chip_id == session.chip_id
            &&& next.version == session.version
            &&& next.sum == session.sum
            &&& next.seed == session.seed
        }),
        ({
            let begun = session.begin(job).0;
            &&& begun.connected
            &&& begun.setup == session.setup
            &&& begun.chip_id == session.chip_id
            &&& begun.version == session.version
            &&& begun.sum == session.sum
            &&& begun.seed == session.seed
        }),
{
}

/// No command of an operation is asked for before the handshake has
/// succeeded and the key is reset.
pub proof fn lemma_commands_need_key(session: Session)
    requires
        session.wf(),
        session.commanding(),
    ensures
        session.connected,
        session.key_is_reset,
{
}

/// The chunk behind a chunk that starts at a multiple of the chunk size
/// starts at a multiple of it too, and not behind the end of the region.
pub proof fn lemma_next_chunk(total: nat, offset: nat)
    requires
        offset < total,
        offset % (MAX_CHUNK as nat) == 0,
    ensures
        0 < chunk_length(total, offset, MAX_CHUNK as nat) <= MAX_CHUNK,
        offset + chunk_length(total, offset, MAX_CHUNK as nat) <= total,
        offset + chunk_length(total, offset, MAX_CHUNK as nat) < total ==> (offset + chunk_length(
            total,
            offset,
            MAX_CHUNK as nat,
        )) % (MAX_CHUNK as nat) == 0,
{
}

} // verus!
