//! The executable session: a state machine that follows
//! [`Session`](crate::machine::Session) step for step.
//!
//! The session never touches the device. It hands out an [`Action`], the
//! driver performs it and calls [`Ch559::step`] with the outcome, until the
//! action is [`Action::Finished`].

use vstd::prelude::*;
use vstd::slice::slice_subrange;
use vstd::string::StringExecFns;
use crate::chunk::chunk_size;
use crate::descriptor::{plan_setup, Device, Setup};
use crate::error::{Error, UsbError};
use crate::image::{check_source, pad_image, lemma_target_bounds, Source};
use crate::machine::{
    fresh, lemma_begin_keeps_wf, lemma_reply_keeps_wf, Exchange, Job, Outcome, Pending, Session,
    Step,
};
use crate::version::version_string;
use crate::wire::{
    append_read_payload, chunk_request, detect_request, erase_data_request, erase_request,
    identify_checksum, identify_request, read_chunk_request, reset_key_request, response,
    response_byte, status_ok, CHIP_FAMILY, DATA_SIZE, IDENTIFY_RESPONSE_LEN, PAYLOAD_OFFSET,
    STATUS_OFFSET, STATUS_RESPONSE_LEN,
};

verus! {

/// The outcome that the driver reports of the action it was asked for.
#[derive(Debug, Clone, PartialEq, Eq)]
pub enum Reply {
    /// The request or transfer failed.
    Failed(UsbError),
    /// Activating or claiming succeeded.
    Completed,
    /// The bulk OUT transfer accepted this many bytes.
    Sent(usize),
    /// The bulk IN transfer delivered these bytes. Bytes that are missing up
    /// to the length asked for are read as zero; bytes beyond it are ignored.
    Received(Vec<u8>),
}

impl View for Reply {
    type V = Outcome;

    open spec fn view(&self) -> Outcome {
        match *self {
            Reply::Failed(cause) => Outcome::Failed(cause),
            Reply::Completed => Outcome::Completed,
            Reply::Sent(count) => Outcome::Sent(count as nat),
            Reply::Received(bytes) => Outcome::Received(bytes@),
        }
    }
}

/// What the driver is to do next.
#[derive(Debug, PartialEq, Eq)]
pub enum Action {
    /// Nothing: no operation is in progress.
    Idle,
    /// Activate the configuration with this number.
    Activate(u8),
    /// Claim the interface with this number.
    Claim(u8),
    /// Send `data` in one bulk transfer to the OUT endpoint at `endpoint`,
    /// and report how many bytes were accepted.
    Send { endpoint: u8, data: Vec<u8> },
    /// Read `length` bytes in one bulk transfer from the IN endpoint at
    /// `endpoint`, and report them.
    Receive { endpoint: u8, length: usize },
    /// The operation has ended: with the bytes it read (none, unless it was a
    /// read of the data region) or with the failure that ended it.
    Finished(Result<Vec<u8>, Error>),
}

impl View for Action {
    type V = Step;

    open spec fn view(&self) -> Step {
        match *self {
            Action::Idle => Step::Idle,
            Action::Activate(configuration) => Step::Activate(configuration),
            Action::Claim(interface) => Step::Claim(interface),
            Action::Send { endpoint, data } => Step::Send { endpoint, data: data@ },
            Action::Receive { endpoint, length } => Step::Receive { endpoint, length: length as nat },
            Action::Finished(Ok(data)) => Step::Finished(Ok(data@)),
            Action::Finished(Err(e)) => Step::Finished(Err(e)),
        }
    }
}

/// The operation in progress.
enum Task {
    Rest,
    Connect,
    Erase,
    EraseData,
    Read { offset: usize, data: Vec<u8> },
    Write { write: bool, data_region: bool, offset: usize, image: Vec<u8> },
}

impl View for Task {
    type V = Job;

    closed spec fn view(&self) -> Job {
        match *self {
            Task::Rest => Job::Rest,
            Task::Connect => Job::Connect,
            Task::Erase => Job::Erase,
            Task::EraseData => Job::EraseData,
            Task::Read { offset, data } => Job::Read { offset: offset as nat, data: data@ },
            Task::Write { write, data_region, offset, image } => Job::Write {
                write,
                data_region,
                offset: offset as nat,
                image: image@,
            },
        }
    }
}

/// The fields of a session, without its invariant.
struct Core {
    setup: Setup,
    chip_id: u8,
    version: String,
    sum: u8,
    key_is_reset: bool,
    seed: i64,
    connected: bool,
    task: Task,
    pending: Pending,
}

impl View for Core {
    type V = Session;

    closed spec fn view(&self) -> Session {
        Session {
            setup: self.setup,
            chip_id: self.chip_id,
            version: self.version@,
            sum: self.sum,
            key_is_reset: self.key_is_reset,
            seed: self.seed,
            connected: self.connected,
            job: self.task@,
            pending: self.pending,
        }
    }
}

impl Core {
    /// A session on no device, with nothing in progress.
    fn detached() -> (core: Core)
        ensures
            core@ == Session::detached(),
            core@.wf(),
    {
        Core {
            setup: Setup { configuration: 0, interface: 0, ep_in: 0, ep_out: 0 },
            chip_id: 0,
            version: String::new(),
            sum: 0,
            key_is_reset: false,
            seed: 1,
            connected: false,
            task: Task::Rest,
            pending: Pending::Nothing,
        }
    }

    fn response_len(&self, exchange: Exchange) -> (length: usize)
        requires
            self@.bounded(),
        ensures
            length == self@.response_len(exchange),
            length >= STATUS_RESPONSE_LEN,
    {
        match exchange {
            Exchange::Identify => IDENTIFY_RESPONSE_LEN,
            Exchange::Command => match &self.task {
                Task::Read { offset, data } => PAYLOAD_OFFSET + chunk_size(DATA_SIZE, *offset),
                _ => STATUS_RESPONSE_LEN,
            },
            _ => STATUS_RESPONSE_LEN,
        }
    }

    fn command(&self) -> (request: Vec<u8>)
        requires
            self@.bounded(),
        ensures
            request@ == self@.command(),
    {
        match &self.task {
            Task::Erase => erase_request(),
            Task::EraseData => erase_data_request(),
            Task::Read { offset, data } => read_chunk_request(
                *offset as u16,
                chunk_size(DATA_SIZE, *offset),
            ),
            Task::Write { write, data_region, offset, image } => {
                let size = chunk_size(image.len(), *offset);
                let chunk = slice_subrange(image.as_slice(), *offset, *offset + size);
                chunk_request(*offset as u16, chunk, *write, *data_region, self.chip_id)
            },
            _ => Vec::new(),
        }
    }

    fn request(&self, exchange: Exchange) -> (request: Vec<u8>)
        requires
            self@.bounded(),
        ensures
            request@ == self@.request(exchange),
    {
        match exchange {
            Exchange::Detect => detect_request(),
            Exchange::Identify => identify_request(),
            Exchange::ResetKey => reset_key_request(self.sum),
            Exchange::Command => self.command(),
        }
    }

    fn action(&self) -> (action: Action)
        requires
            self@.bounded(),
        ensures
            action@ == self@.action(),
    {
        match self.pending {
            Pending::Nothing => Action::Idle,
            Pending::Activate => Action::Activate(self.setup.configuration),
            Pending::Claim => Action::Claim(self.setup.interface),
            Pending::Send(exchange) => Action::Send {
                endpoint: self.setup.ep_out,
                data: self.request(exchange),
            },
            Pending::Receive(exchange) => Action::Receive {
                endpoint: self.setup.ep_in,
                length: self.response_len(exchange),
            },
        }
    }

    fn await_for(self, pending: Pending) -> (next: (Core, Action))
        requires
            self@.bounded(),
        ensures
            (next.0@, next.1@) == self@.await_for(pending),
    {
        let core = Core { pending, ..self };
        let action = core.action();
        (core, action)
    }

    fn ignore(self) -> (next: (Core, Action))
        requires
            self@.bounded(),
        ensures
            (next.0@, next.1@) == self@.ignore(),
    {
        let action = self.action();
        (self, action)
    }

    fn succeed(self, data: Vec<u8>) -> (next: (Core, Action))
        ensures
            (next.0@, next.1@) == self@.succeed(data@),
    {
        let core = Core { task: Task::Rest, pending: Pending::Nothing, ..self };
        (core, Action::Finished(Ok(data)))
    }

    fn fail(self, error: Error) -> (next: (Core, Action))
        ensures
            (next.0@, next.1@) == self@.fail(error),
    {
        let reported = match (&self.task, self.pending) {
            (Task::Connect, Pending::Send(_)) | (Task::Connect, Pending::Receive(_)) => {
                Error::Initialize(Box::new(Error::OnDetect(Box::new(error))))
            },
            (Task::Connect, _) => Error::Initialize(Box::new(error)),
            _ => error,
        };
        let core = Core { task: Task::Rest, pending: Pending::Nothing, ..self };
        (core, Action::Finished(Err(reported)))
    }

    fn resume(self) -> (next: (Core, Action))
        requires
            self@.bounded(),
        ensures
            (next.0@, next.1@) == self@.resume(),
    {
        let done = match &self.task {
            Task::Read { offset, data } => *offset >= DATA_SIZE,
            Task::Write { write, data_region, offset, image } => *offset >= image.len(),
            _ => false,
        };
        if !done {
            return self.await_for(Pending::Send(Exchange::Command));
        }
        let Core { setup, chip_id, version, sum, key_is_reset, seed, connected, task, pending } =
            self;
        let data = match task {
            Task::Read { offset, data } => data,
            _ => Vec::new(),
        };
        let core = Core {
            setup,
            chip_id,
            version,
            sum,
            key_is_reset,
            seed,
            connected,
            task: Task::Rest,
            pending: Pending::Nothing,
        };
        (core, Action::Finished(Ok(data)))
    }

    fn begin(self, task: Task) -> (next: (Core, Action))
        requires
            self@.wf(),
            fresh(task@),
        ensures
            (next.0@, next.1@) == self@.begin(task@),
    {
        if !(self.connected && matches!(self.task, Task::Rest)) {
            self.ignore()
        } else if self.key_is_reset {
            let core = Core { task, ..self };
            core.resume()
        } else {
            let core = Core { task, ..self };
            core.await_for(Pending::Send(Exchange::ResetKey))
        }
    }

    fn after_command(self, received: &Vec<u8>) -> (next: (Core, Action))
        requires
            self@.wf(),
            self@.pending == Pending::Receive(Exchange::Command),
        ensures
            (next.0@, next.1@) == self@.after_command(
                response(received@, self@.response_len(Exchange::Command)),
            ),
    {
        let length = self.response_len(Exchange::Command);
        let ok = status_ok(received, length);
        let Core { setup, chip_id, version, sum, key_is_reset, seed, connected, task, pending } =
            self;
        match task {
            Task::Read { offset, data } => {
                if ok {
                    let size = chunk_size(DATA_SIZE, offset);
                    let mut data = data;
                    append_read_payload(&mut data, received, size);
                    let core = Core {
                        setup,
                        chip_id,
                        version,
                        sum,
                        key_is_reset,
                        seed,
                        connected,
                        task: Task::Read { offset: offset + size, data },
                        pending,
                    };
                    core.resume()
                } else {
                    let core = Core {
                        setup,
                        chip_id,
                        version,
                        sum,
                        key_is_reset,
                        seed,
                        connected,
                        task: Task::Read { offset, data },
                        pending,
                    };
                    core.fail(Error::Read)
                }
            },
            Task::Write { write, data_region, offset, image } => {
                if ok {
                    let size = chunk_size(image.len(), offset);
                    let core = Core {
                        setup,
                        chip_id,
                        version,
                        sum,
                        key_is_reset,
                        seed,
                        connected,
                        task: Task::Write { write, data_region, offset: offset + size, image },
                        pending,
                    };
                    core.resume()
                } else {
                    let core = Core {
                        setup,
                        chip_id,
                        version,
                        sum,
                        key_is_reset,
                        seed,
                        connected,
                        task: Task::Write { write, data_region, offset, image },
                        pending,
                    };
                    if write {
                        core.fail(Error::Flash)
                    } else {
                        core.fail(Error::Verify)
                    }
                }
            },
            task => {
                let core = Core {
                    setup,
                    chip_id,
                    version,
                    sum,
                    key_is_reset,
                    seed,
                    connected,
                    task,
                    pending,
                };
                if ok {
                    core.succeed(Vec::new())
                } else {
                    core.fail(Error::Erase)
                }
            },
        }
    }

    fn after_answer(self, exchange: Exchange, received: &Vec<u8>) -> (next: (Core, Action))
        requires
            self@.wf(),
            self@.pending == Pending::Receive(exchange),
        ensures
            (next.0@, next.1@) == self@.after_answer(
                exchange,
                response(received@, self@.response_len(exchange)),
            ),
    {
        match exchange {
            Exchange::Detect => {
                let family = response_byte(received, STATUS_RESPONSE_LEN, STATUS_OFFSET);
                if family == CHIP_FAMILY {
                    let core = Core { chip_id: family, ..self };
                    core.await_for(Pending::Send(Exchange::Identify))
                } else {
                    self.fail(Error::InvalidResponse)
                }
            },
            Exchange::Identify => {
                let major = response_byte(received, IDENTIFY_RESPONSE_LEN, 19);
                let minor = response_byte(received, IDENTIFY_RESPONSE_LEN, 20);
                let patch = response_byte(received, IDENTIFY_RESPONSE_LEN, 21);
                let core = Core {
                    version: version_string(major, minor, patch),
                    sum: identify_checksum(received),
                    connected: true,
                    ..self
                };
                core.succeed(Vec::new())
            },
            Exchange::ResetKey => {
                let echoed = response_byte(received, STATUS_RESPONSE_LEN, STATUS_OFFSET);
                if echoed == self.chip_id {
                    let core = Core { key_is_reset: true, ..self };
                    core.resume()
                } else {
                    self.fail(Error::ResetKey)
                }
            },
            Exchange::Command => self.after_command(received),
        }
    }

    fn advance(self, reply: Reply) -> (next: (Core, Action))
        requires
            self@.wf(),
        ensures
            (next.0@, next.1@) == self@.reply(reply@),
    {
        match self.pending {
            Pending::Nothing => self.ignore(),
            Pending::Activate => match reply {
                Reply::Completed => self.await_for(Pending::Claim),
                Reply::Failed(_) => self.fail(Error::ActivateConfiguration),
                _ => self.ignore(),
            },
            Pending::Claim => match reply {
                Reply::Completed => self.await_for(Pending::Send(Exchange::Detect)),
                Reply::Failed(_) => self.fail(Error::ClaimInterface),
                _ => self.ignore(),
            },
            Pending::Send(exchange) => match reply {
                Reply::Sent(count) => {
                    let request = self.request(exchange);
                    if count == request.len() {
                        self.await_for(Pending::Receive(exchange))
                    } else {
                        self.fail(Error::BulkWriteAll)
                    }
                },
                Reply::Failed(_) => self.fail(Error::BulkWrite),
                _ => self.ignore(),
            },
            Pending::Receive(exchange) => match reply {
                Reply::Received(bytes) => self.after_answer(exchange, &bytes),
                Reply::Failed(cause) => self.fail(Error::BulkRead(cause)),
                _ => self.ignore(),
            },
        }
    }
}

/// A session with the boot loader of one device.
pub struct Ch559 {
    core: Core,
}

impl View for Ch559 {
    type V = Session;

    closed spec fn view(&self) -> Session {
        self.core@
    }
}

impl Ch559 {
    #[verifier::type_invariant]
    spec fn well_formed(self) -> bool {
        self.core@.wf()
    }

    /// Opens a session on the device that enumeration found, if it found
    /// one.
    ///
    /// No device is `NotFound`. A device without a configuration, without an
    /// interface and setting, or without a pair of bulk endpoints is a
    /// failure of set-up. On every other device the session starts, and its
    /// first action is to activate the configuration.
    pub fn new(device: Option<Device>) -> (session: Result<Ch559, Error>)
        ensures
            match session {
                Ok(session) => Session::open(device) == Ok::<Session, Error>(session@)
                    && session@.wf(),
                Err(e) => Session::open(device) == Err::<Session, Error>(e),
            },
    {
        match device {
            None => Err(Error::NotFound),
            Some(device) => match plan_setup(&device) {
                Ok(setup) => Ok(
                    Ch559 {
                        core: Core {
                            setup,
                            chip_id: 0,
                            version: String::from_str("unknown"),
                            sum: 0,
                            key_is_reset: false,
                            seed: 1,
                            connected: false,
                            task: Task::Connect,
                            pending: Pending::Activate,
                        },
                    },
                ),
                Err(e) => Err(Error::Initialize(Box::new(e))),
            },
        }
    }

    /// Sets the seed of the filler for padded images.
    pub fn set_seed(&mut self, seed: i64)
        ensures
            final(self)@ == (Session { seed, ..old(self)@ }),
            final(self)@.wf(),
    {
        proof {
            use_type_invariant(&*self);
        }
        self.core.seed = seed;
    }

    /// What the driver is to do now.
    pub fn action(&self) -> (action: Action)
        ensures
            action@ == self@.action(),
    {
        proof {
            use_type_invariant(self);
        }
        self.core.action()
    }

    /// Takes the outcome of the action that was asked for and says what to
    /// do next.
    pub fn step(&mut self, reply: Reply) -> (action: Action)
        ensures
            (final(self)@, action@) == old(self)@.reply(reply@),
            final(self)@.wf(),
    {
        proof {
            use_type_invariant(&*self);
            lemma_reply_keeps_wf(self@, reply@);
        }
        let mut core = Core::detached();
        core::mem::swap(&mut self.core, &mut core);
        let (next, action) = core.advance(reply);
        self.core = next;
        action
    }

    fn start(&mut self, task: Task) -> (action: Action)
        requires
            fresh(task@),
        ensures
            (final(self)@, action@) == old(self)@.begin(task@),
            final(self)@.wf(),
    {
        proof {
            use_type_invariant(&*self);
            lemma_begin_keeps_wf(self@, task@);
        }
        let mut core = Core::detached();
        core::mem::swap(&mut self.core, &mut core);
        let (next, action) = core.begin(task);
        self.core = next;
        action
    }

    /// Begins to erase the code region.
    pub fn erase(&mut self) -> (action: Action)
        ensures
            (final(self)@, action@) == old(self)@.begin(Job::Erase),
            final(self)@.wf(),
    {
        self.start(Task::Erase)
    }

    /// Begins to erase the data region.
    pub fn erase_data(&mut self) -> (action: Action)
        ensures
            (final(self)@, action@) == old(self)@.begin(Job::EraseData),
            final(self)@.wf(),
    {
        self.start(Task::EraseData)
    }

    /// Begins to read the data region. The operation finishes with the
    /// bytes of the region.
    pub fn read_data(&mut self) -> (action: Action)
        ensures
            (final(self)@, action@) == old(self)@.begin(
                Job::Read { offset: 0, data: Seq::empty() },
            ),
            final(self)@.wf(),
    {
        self.start(Task::Read { offset: 0, data: Vec::new() })
    }

    /// Begins to write an image to the code or to the data region, or with
    /// `write` false to verify the region against it. With `fullfill` the
    /// image is padded to the whole region with filler from the seed.
    pub fn write(&mut self, source: &Source, write: bool, data_region: bool, fullfill: bool) -> (action:
        Action)
        ensures
            (final(self)@, action@) == old(self)@.begin_write(
                *source,
                write,
                data_region,
                fullfill,
            ),
            final(self)@.wf(),
    {
        proof {
            use_type_invariant(&*self);
        }
        if !self.is_ready() {
            return self.action();
        }
        match check_source(source, data_region, fullfill) {
            Err(e) => Action::Finished(Err(e)),
            Ok(_) => {
                proof {
                    lemma_target_bounds(*source, data_region, fullfill);
                }
                let image = pad_image(source, data_region, fullfill, self.core.seed);
                self.start(Task::Write { write, data_region, offset: 0, image })
            },
        }
    }

    /// Whether an operation can begin.
    pub fn is_ready(&self) -> (ready: bool)
        ensures
            ready == self@.ready(),
    {
        self.core.connected && matches!(self.core.task, Task::Rest)
    }

    /// The chip family code that the device answered detect with.
    pub fn chip_id(&self) -> (chip_id: u8)
        ensures
            chip_id == self@.chip_id,
    {
        self.core.chip_id
    }

    /// The boot loader version, or "unknown" before the handshake.
    pub fn version(&self) -> (version: &String)
        ensures
            version@ == self@.version,
    {
        &self.core.version
    }

    /// Whether the session key has been reset.
    pub fn key_is_reset(&self) -> (reset: bool)
        ensures
            reset == self@.key_is_reset,
    {
        self.core.key_is_reset
    }

    /// How far the operation in progress has come, and how far it has to go:
    /// the bytes done and the bytes of the region. Both are zero unless a
    /// read, a write or a verify is in progress.
    pub fn progress(&self) -> (progress: (usize, usize))
        ensures
            progress.0 == self@.done(),
            progress.1 == self@.total(),
    {
        match &self.core.task {
            Task::Read { offset, data } => (*offset, DATA_SIZE),
            Task::Write { write, data_region, offset, image } => (*offset, image.len()),
            _ => (0, 0),
        }
    }
}

} // verus!
