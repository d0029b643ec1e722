//! How a one-shot device read ends.
//!
//! Panels resolve their state by sending one read request and awaiting its typed
//! reply, then storing the result — or clearing the loading marker if the reply
//! never comes.

use vstd::prelude::*;

verus! {

/// What became of a read request.
pub enum ReadEvent<T> {
    /// The channel was already broken; the request was not sent.
    NotSent,
    /// The reply was dropped: whoever should have sent it is gone.
    Dropped,
    /// The reply came.
    Delivered(T),
}

/// What is to be done about it; the screen is repainted afterwards either way.
pub enum ReadStep<T> {
    /// Reset the marker of the read, so that the device is not stuck on it.
    Clear,
    /// Store the result.
    Store(T),
}

/// A delivered reply is stored; without one the marker is cleared.
pub fn device_read_step<T>(event: ReadEvent<T>) -> (step: ReadStep<T>)
    ensures
        match event {
            ReadEvent::Delivered(result) => step == ReadStep::Store(result),
            ReadEvent::NotSent => step is Clear,
            ReadEvent::Dropped => step is Clear,
        },
{
    match event {
        ReadEvent::Delivered(result) => ReadStep::Store(result),
        ReadEvent::NotSent => ReadStep::Clear,
        ReadEvent::Dropped => ReadStep::Clear,
    }
}

} // verus!
