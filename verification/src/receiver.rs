//! The decisions of the receive loop.

use vstd::prelude::*;

verus! {

/// How one wait for a datagram ended.
#[derive(Clone, Copy, Debug, PartialEq, Eq, Structural)]
pub enum Reception {
    /// A datagram came.
    Datagram,
    /// The wait ran into its time limit.
    WouldBlock,
    /// A signal cut the wait short.
    Interrupted,
    /// The socket failed in another way.
    Failed,
}

/// What the loop does next.
#[derive(Clone, Copy, Debug, PartialEq, Eq, Structural)]
pub enum Course {
    /// Decode the datagram and handle its packet.
    Handle,
    /// Look whether the loop is still to run, and wait again.
    Continue,
    /// Leave the loop with the socket's error.
    Abort,
}

/// The course after one wait: a datagram is handled; a time limit or a signal
/// is no fault, since the limit is there to let the loop notice that it was
/// asked to stop; any other failure ends the loop.
pub open spec fn course_after(reception: Reception) -> Course {
    match reception {
        Reception::Datagram => Course::Handle,
        Reception::WouldBlock => Course::Continue,
        Reception::Interrupted => Course::Continue,
        Reception::Failed => Course::Abort,
    }
}

/// Decides the course after one wait for a datagram.
pub fn next_course(reception: Reception) -> (course: Course)
    ensures
        course == course_after(reception),
{
    match reception {
        Reception::Datagram => Course::Handle,
        Reception::WouldBlock => Course::Continue,
        Reception::Interrupted => Course::Continue,
        Reception::Failed => Course::Abort,
    }
}

} // verus!
