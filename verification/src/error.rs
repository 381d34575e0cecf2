//! The closed set of failures a session can report.

use vstd::prelude::*;

verus! {

/// Why the host's USB stack gave up on a transfer or a control request.
#[derive(Debug, Clone, Copy, PartialEq, Eq)]
pub enum UsbError {
    /// Input/output error.
    Io,
    /// Invalid parameter.
    InvalidParam,
    /// Access denied.
    Access,
    /// No such device; it may have been disconnected.
    NoDevice,
    /// Entity not found.
    NotFound,
    /// Resource busy.
    Busy,
    /// The operation timed out.
    Timeout,
    /// Overflow.
    Overflow,
    /// Pipe error.
    Pipe,
    /// A system call was interrupted.
    Interrupted,
    /// Insufficient memory.
    NoMem,
    /// Not supported on this platform.
    NotSupported,
    /// The device returned a malformed descriptor.
    BadDescriptor,
    /// Any other error.
    Other,
}

/// Everything that can end an operation early. Each failure is final for the
/// operation in progress; nothing is retried.
#[derive(Debug, PartialEq, Eq)]
pub enum Error {
    /// The device answered an erase command with a nonzero status.
    Erase,
    /// A bulk OUT transfer accepted fewer bytes than the request holds.
    BulkWriteAll,
    /// A bulk OUT transfer failed.
    BulkWrite,
    /// A bulk IN transfer failed or timed out, for the given reason.
    BulkRead(UsbError),
    /// The answer to the key reset does not carry the chip id.
    ResetKey,
    /// The image holds fewer bytes than its stated length.
    Eof,
    /// A bulk IN or a bulk OUT endpoint is missing, or the endpoint found for
    /// a direction is not a bulk endpoint.
    DetectEp,
    /// The configuration has no interface, or the interface no setting.
    CheckInterface,
    /// The device reports no configuration.
    CheckConfiguration,
    /// The configuration could not be activated.
    ActivateConfiguration,
    /// The interface could not be claimed.
    ClaimInterface,
    /// The answer to the detect command does not name the expected chip
    /// family.
    InvalidResponse,
    /// A failure of the detect or identify exchange.
    OnDetect(Box<Error>),
    /// A chunk longer than one command can carry.
    TooLargeReadSize,
    /// The device answered a read command with a nonzero status.
    Read,
    /// The device answered a write command with a nonzero status.
    Flash,
    /// The device answered a verify command with a nonzero status.
    Verify,
    /// The image is not a regular file.
    InvalidFile,
    /// A data image that is not padded must fill the data region exactly.
    FileSize,
    /// The image is larger than the data region.
    TooLargeDataSize,
    /// The image is larger than the code region.
    TooLargeCodeSize,
    /// A failure while the session was being set up.
    Initialize(Box<Error>),
    /// No matching device is attached.
    NotFound,
}

impl Error {
    /// This failure as one of the detect / identify handshake.
    pub open spec fn on_detect(self) -> Error {
        Error::OnDetect(Box::new(self))
    }

    /// This failure as one of session set-up.
    pub open spec fn on_initialize(self) -> Error {
        Error::Initialize(Box::new(self))
    }
}

} // verus!
