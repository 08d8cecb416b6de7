//! The errors that the library reports.

use vstd::prelude::*;

verus! {

/// An error reported to the caller of the operation that triggered it.
#[derive(Clone, Copy, Debug, PartialEq, Eq, Structural)]
pub enum Error {
    /// A filter item was neither an encoded address nor a hex byte string.
    DecodeError,
    /// A size or an item count was zero.
    InvalidArgument,
    /// A required consumer or producer of messages is gone.
    ChannelClosed,
    /// The network engine rejected a command.
    UpstreamCommandFailed,
}

/// How an attempt to hand a command or a notification on ended.
#[derive(Clone, Copy, Debug, PartialEq, Eq, Structural)]
pub enum Delivery {
    /// The message was taken.
    Delivered,
    /// The consumer's end of the channel is gone.
    ConsumerGone,
    /// The network engine took the command and refused it.
    Rejected,
}

impl Delivery {
    /// The error that a delivery is reported with, if it failed.
    pub open spec fn failure(self) -> Option<Error> {
        match self {
            Delivery::Delivered => None,
            Delivery::ConsumerGone => Some(Error::ChannelClosed),
            Delivery::Rejected => Some(Error::UpstreamCommandFailed),
        }
    }

    /// The result to report to the caller of the operation that sent the
    /// message. A failure here changes no state of the library.
    pub fn report(&self) -> (r: Result<(), Error>)
        ensures
            r is Ok <==> self.failure() is None,
            r matches Err(e) ==> self.failure() == Some(e),
    {
        match self {
            Delivery::Delivered => Ok(()),
            Delivery::ConsumerGone => Err(Error::ChannelClosed),
            Delivery::Rejected => Err(Error::UpstreamCommandFailed),
        }
    }
}

impl Error {
    /// Whether the operation that failed left every state as it was and may be
    /// tried again with other input.
    pub open spec fn recoverable(self) -> bool {
        self == Error::DecodeError || self == Error::InvalidArgument
    }

    /// Tells the local, recoverable errors from those that end a session.
    pub fn is_recoverable(&self) -> (r: bool)
        ensures
            r == self.recoverable(),
    {
        match self {
            Error::DecodeError => true,
            Error::InvalidArgument => true,
            Error::ChannelClosed => false,
            Error::UpstreamCommandFailed => false,
        }
    }
}

} // verus!
