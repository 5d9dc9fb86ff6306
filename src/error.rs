use vstd::prelude::*;

verus! {

/// Failures that the gateway's logic reports.
#[derive(Debug, PartialEq, Eq)]
pub enum Error {
    /// The radio hardware or its driver failed.
    RadioError(&'static str),
    /// Something looked up was not there.
    OptionError(&'static str),
    /// An operation without error detail failed.
    ResultError(&'static str),
    /// A frame declared more bytes than the buffer holds.
    IndexOutOfRange { size: usize, index: usize },
    /// A telemetry buffer is shorter than its fixed layout.
    TelemetryTooShort { size: usize, needed: usize },
    /// Two pins of one kind use the same bit number.
    DuplicatePinNumber { number: u8 },
    /// A pin's bit number does not fit a one-byte mask.
    PinNumberOutOfRange { number: u8 },
    /// Two pins of one kind share a name.
    DuplicatePinName,
    /// A channel or stream that feeds the orchestrator has ended.
    ChannelClosed(&'static str),
}

impl Error {
    pub fn new_option(msg: &'static str) -> (r: Error)
        ensures
            r == Error::OptionError(msg),
    {
        Error::OptionError(msg)
    }

    pub fn new_result(msg: &'static str) -> (r: Error)
        ensures
            r == Error::ResultError(msg),
    {
        Error::ResultError(msg)
    }

    pub fn new_index_out_of_range(size: usize, index: usize) -> (r: Error)
        ensures
            r == (Error::IndexOutOfRange { size, index }),
    {
        Error::IndexOutOfRange { size, index }
    }
}

} // verus!
