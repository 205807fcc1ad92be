//! Error types used in this driver.

use core::str::Utf8Error;
use vstd::prelude::*;
use vstd::std_specs::convert::FromSpecImpl;

verus! {

/// The error that `core::str::from_utf8` reports. Nothing of what it holds is
/// read here: every conversion below turns it into `EncodingError`.
#[verifier::external_type_specification]
#[verifier::external_body]
pub struct ExUtf8Error(Utf8Error);

/// A collection of errors that can occur.
#[derive(Debug, PartialEq, Eq)]
pub enum Error<S> {
    /// Could not read from serial port.
    SerialRead(S),
    /// Could not write to serial port.
    SerialWrite(S),
    /// Read buffer is too small: the module sent a longer line than the
    /// driver was built to hold.
    ReadBufferTooSmall,
    /// Command or response contained invalid UTF-8.
    EncodingError,
    /// A response could not be parsed.
    ParsingError,
    /// A command failed.
    CommandFailed,
    /// A bad parameter was supplied.
    BadParameter,
    /// Device is in sleep mode.
    SleepMode,
    /// The module is in an invalid state.
    InvalidState,
}

impl<S> From<Utf8Error> for Error<S> {
    fn from(e: Utf8Error) -> (r: Self) {
        Error::EncodingError
    }
}

impl<S> FromSpecImpl<Utf8Error> for Error<S> {
    open spec fn obeys_from_spec() -> bool {
        true
    }

    open spec fn from_spec(e: Utf8Error) -> Self {
        Error::EncodingError
    }
}

/// Errors that can occur during the join procedure.
#[derive(Debug, PartialEq, Eq)]
pub enum JoinError<S> {
    /// Invalid join mode.
    BadParameter,
    /// The keys corresponding to the join mode (OTAA or ABP) were not
    /// configured.
    KeysNotInit,
    /// All channels are busy.
    NoFreeChannel,
    /// Device is in a Silent Immediately state.
    Silent,
    /// MAC state is not idle.
    Busy,
    /// MAC was paused and not resumed.
    MacPaused,
    /// Join procedure was unsuccessful: Device tried to join but was rejected
    /// or did not receive a response.
    JoinUnsuccessful,
    /// Unknown response.
    UnknownResponse,
    /// Another error occurred.
    Other(Error<S>),
}

impl<S> From<Error<S>> for JoinError<S> {
    fn from(other: Error<S>) -> (r: Self) {
        JoinError::Other(other)
    }
}

impl<S> FromSpecImpl<Error<S>> for JoinError<S> {
    open spec fn obeys_from_spec() -> bool {
        true
    }

    open spec fn from_spec(other: Error<S>) -> Self {
        JoinError::Other(other)
    }
}

impl<S> From<Utf8Error> for JoinError<S> {
    fn from(e: Utf8Error) -> (r: Self) {
        JoinError::Other(Error::EncodingError)
    }
}

impl<S> FromSpecImpl<Utf8Error> for JoinError<S> {
    open spec fn obeys_from_spec() -> bool {
        true
    }

    open spec fn from_spec(e: Utf8Error) -> Self {
        JoinError::Other(Error::EncodingError)
    }
}

/// Errors that can occur during the transmit procedure.
#[derive(Debug, PartialEq, Eq)]
pub enum TxError<S> {
    /// Invalid type, port or data.
    BadParameter,
    /// Network not joined.
    NotJoined,
    /// All channels are busy.
    NoFreeChannel,
    /// Device is in a Silent Immediately state.
    Silent,
    /// Frame counter rollover. Re-join needed.
    FrameCounterRollover,
    /// MAC state is not idle.
    Busy,
    /// MAC was paused and not resumed.
    MacPaused,
    /// Application payload length is greater than the maximum application
    /// payload length corresponding to the current data rate.
    InvalidDataLenth,
    /// Transmission was not successful.
    TxUnsuccessful,
    /// Unknown response.
    UnknownResponse,
    /// Another error occurred.
    Other(Error<S>),
}

impl<S> From<Error<S>> for TxError<S> {
    fn from(other: Error<S>) -> (r: Self) {
        TxError::Other(other)
    }
}

impl<S> FromSpecImpl<Error<S>> for TxError<S> {
    open spec fn obeys_from_spec() -> bool {
        true
    }

    open spec fn from_spec(other: Error<S>) -> Self {
        TxError::Other(other)
    }
}

impl<S> From<Utf8Error> for TxError<S> {
    fn from(e: Utf8Error) -> (r: Self) {
        TxError::Other(Error::EncodingError)
    }
}

impl<S> FromSpecImpl<Utf8Error> for TxError<S> {
    open spec fn obeys_from_spec() -> bool {
        true
    }

    open spec fn from_spec(e: Utf8Error) -> Self {
        TxError::Other(Error::EncodingError)
    }
}

/// A `Result<T, Error>`.
pub type RnResult<T, S> = Result<T, Error<S>>;

} // verus!
