//! A safe, typed access layer over a handle-based hardware-abstraction API
//! for software-defined-radio devices.
//!
//! The library models the resource-lifecycle and streaming core of such a
//! binding: key/value argument lists ([`Args`]), argument metadata,
//! the closed sample-format registry, device enumeration and stream setup,
//! the stream activation state machine with its buffer-transfer protocol,
//! and the translation of the driver's two error-signaling conventions
//! ([`Error`], [`ErrorCode`]).
//!
//! The native driver itself runs outside this library.  Every operation
//! that needs an answer from the driver takes that answer as an explicit
//! reply value, and every stream records the driver calls it issues in a
//! transcript, so the session logic is verified for every possible driver
//! behaviour.

pub mod arginfo;
pub use arginfo::{ArgInfo, ArgType};

pub mod args;
pub use args::{Args, ArgsIterator};

pub mod device;
pub use device::{enumerate, Device, Direction};

pub mod error;
pub use error::{check_error, check_ret_error, len_result, Error, ErrorCode};

pub mod format;
pub use format::{parse_stream_formats, Format, StreamSample};

pub mod stream;
pub use stream::{DriverReply, ReadReply, RxStream, StreamCall, TxStream};
pub use stream::{FLAG_END_BURST, FLAG_HAS_TIME};
