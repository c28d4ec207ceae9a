//! The errors of a launch, and how the two layers' results are lifted into them.

use vstd::prelude::*;

verus! {

/// A failure of the channel layer: the operating system did what it was asked,
/// but what it handed back cannot be used to set the channel up.
#[derive(Clone, Copy, Debug, PartialEq, Eq, Structural)]
pub enum ChannelError {
    /// The executable path is empty, or holds a double quote or a NUL, and so
    /// cannot stand as the first token of a command line.
    UnsafeExecutable,
    /// An identity is the null value or the invalid-handle sentinel.
    InvalidIdentity,
    /// An identity is already in use by this launcher.
    DuplicateIdentity,
    /// A reply does not answer the request that is outstanding.
    UnexpectedReply,
    /// Another launch, or another transfer, is still in progress.
    Busy,
    /// The payload does not fit into the message slot.
    PayloadTooLarge,
    /// The slot does not hold a well-formed frame.
    MalformedFrame,
    /// The launcher has no child of that number.
    NoSuchChild,
    /// The other end is gone: it ended while it owned the lock.
    Abandoned,
    /// The text is not the command line of an executable and a bundle.
    MalformedCommandLine,
}

/// A failure that the operating system reported, by its code.
#[derive(Clone, Copy, Debug, PartialEq, Eq, Structural)]
pub struct OsError {
    pub code: i32,
}

/// Why a launch, or a transfer, did not succeed.
#[derive(Clone, Copy, Debug, PartialEq, Eq, Structural)]
pub enum Error {
    /// The channel layer refused.
    ChannelErr(ChannelError),
    /// A call to the operating system failed.
    Windows(OsError),
}

/// Lifts a result of the channel layer: the value is kept, the error is wrapped
/// as [`Error::ChannelErr`].
#[inline]
pub fn result_from_channel<T>(channel_result: Result<T, ChannelError>) -> (lifted: Result<T, Error>)
    ensures
        lifted == match channel_result {
            Ok(value) => Ok::<T, Error>(value),
            Err(channel_error) => Err::<T, Error>(Error::ChannelErr(channel_error)),
        },
{
    match channel_result {
        Ok(res) => Ok(res),
        Err(channel_error) => Err(Error::ChannelErr(channel_error)),
    }
}

/// Lifts a result of an operating-system call: the value is kept, the error is
/// wrapped as [`Error::Windows`].
#[inline]
pub fn result_from_windows<T>(windows_result: Result<T, OsError>) -> (lifted: Result<T, Error>)
    ensures
        lifted == match windows_result {
            Ok(value) => Ok::<T, Error>(value),
            Err(windows_error) => Err::<T, Error>(Error::Windows(windows_error)),
        },
{
    match windows_result {
        Ok(res) => Ok(res),
        Err(windows_error) => Err(Error::Windows(windows_error)),
    }
}

} // verus!
