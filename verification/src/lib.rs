//! Host-side protocol engine for the USB boot loader of the CH559
//! microcontroller.
//!
//! The engine performs no I/O. A [`Ch559`] session is a state machine: it
//! names the next USB request as an [`Action`], the driver carries it out and
//! hands the outcome back as a [`Reply`]. Every decision of the protocol —
//! endpoint discovery, the detect / identify / key-reset handshake, the
//! chunked erase, read, write and verify sequences — is taken here and is
//! verified against the models in the modules below.

pub mod error;
pub mod descriptor;
pub mod wire;
pub mod chunk;
pub mod fill;
pub mod image;
pub mod version;
pub mod progress_bar;
pub mod machine;
pub mod session;
pub mod flash;

pub use error::{Error, UsbError};
pub use image::Source;
pub use session::{Action, Ch559, Reply};
pub use descriptor::{Configuration, Device, Direction, Endpoint, Interface, Setting, TransferType};
