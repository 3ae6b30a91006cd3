//! Error values and the translation of the driver's two error-signaling
//! conventions.
//!
//! The native layer reports failure in two ways: some calls return an error
//! code directly, and the rest leave a status flag and a message in
//! thread-local storage, to be read immediately after the call.  The caller
//! of this library captures that per-call outcome (code or status, plus the
//! recorded message) and hands it to the functions below, which perform the
//! translation into a structured [`Error`].

use vstd::prelude::*;

verus! {

/// An error code reported by the driver.
#[derive(Copy, Clone, Eq, PartialEq, Structural, Debug, Hash)]
pub enum ErrorCode {
    /// A read or write ran out of time.
    Timeout,
    /// A non-specific stream error.
    StreamError,
    /// A read saw data corruption, such as a malformed packet.
    Corruption,
    /// A read overflowed an internal buffer.
    Overflow,
    /// The requested operation or flag setting is not supported.
    NotSupported,
    /// The device was given a stream time that was expired or too early.
    TimeError,
    /// A write caused an underflow, such as an interrupted continuous stream.
    Underflow,
    /// An error without a specific code; see the message string.
    Other,
}

/// The error code denoted by a native return code.
///
/// The native layer uses the small negative integers for the specific
/// conditions; every other value stands for an unspecified error.
pub open spec fn error_code_of(code: i32) -> ErrorCode {
    if code == -1 {
        ErrorCode::Timeout
    } else if code == -2 {
        ErrorCode::StreamError
    } else if code == -3 {
        ErrorCode::Corruption
    } else if code == -4 {
        ErrorCode::Overflow
    } else if code == -5 {
        ErrorCode::NotSupported
    } else if code == -6 {
        ErrorCode::TimeError
    } else if code == -7 {
        ErrorCode::Underflow
    } else {
        ErrorCode::Other
    }
}

impl ErrorCode {
    /// Translate a native return code into an error code.
    pub fn from_code(code: i32) -> (r: ErrorCode)
        ensures
            r == error_code_of(code),
    {
        if code == -1 {
            ErrorCode::Timeout
        } else if code == -2 {
            ErrorCode::StreamError
        } else if code == -3 {
            ErrorCode::Corruption
        } else if code == -4 {
            ErrorCode::Overflow
        } else if code == -5 {
            ErrorCode::NotSupported
        } else if code == -6 {
            ErrorCode::TimeError
        } else if code == -7 {
            ErrorCode::Underflow
        } else {
            ErrorCode::Other
        }
    }
}

/// An error combining an error code and a message string.
#[derive(Clone, Debug, Hash)]
pub struct Error {
    /// The translated error code.
    pub code: ErrorCode,
    /// The message the driver recorded for the failing call.
    pub message: String,
}

/// Translate the outcome of a call that has no return channel of its own.
///
/// Such a call signals failure only through the thread-local status flag,
/// read immediately after the call: a zero status means the call succeeded
/// and `value` is returned; any other status means it failed, and because
/// no specific code is reported this way, the error is always
/// [`ErrorCode::Other`] with the recorded message.
pub fn check_error<T>(value: T, status: i32, message: String) -> (r: Result<T, Error>)
    ensures
        status == 0 ==> (r matches Ok(v) && v == value),
        status != 0 ==> (r matches Err(e) && e.code == ErrorCode::Other && e.message == message),
{
    if status == 0 {
        Ok(value)
    } else {
        Err(Error { code: ErrorCode::Other, message })
    }
}

/// Translate the return code of a call that reports errors directly.
///
/// A zero code means success; any other code is translated through
/// [`error_code_of`] and paired with the recorded message.
pub fn check_ret_error(code: i32, message: String) -> (r: Result<(), Error>)
    ensures
        code == 0 ==> r is Ok,
        code != 0 ==> (r matches Err(e) && e.code == error_code_of(code) && e.message == message),
{
    if code == 0 {
        Ok(())
    } else {
        Err(Error { code: ErrorCode::from_code(code), message })
    }
}

/// Translate the return code of a transfer call into an element count.
///
/// A non-negative code is the number of elements transferred; a negative
/// code is an error, translated through [`error_code_of`] and paired with
/// the recorded message.
pub fn len_result(code: i32, message: String) -> (r: Result<usize, Error>)
    ensures
        code >= 0 ==> (r matches Ok(n) && n == code as usize),
        code < 0 ==> (r matches Err(e) && e.code == error_code_of(code) && e.message == message),
{
    if code >= 0 {
        Ok(code as usize)
    } else {
        Err(Error { code: ErrorCode::from_code(code), message })
    }
}

} // verus!
