//! Readiness of the network resource: whether its socket can be read or written.
use vstd::prelude::*;

verus! {

/// The socket can be read.
#[derive(Debug)]
pub struct Readable;

/// The socket can be written.
#[derive(Debug)]
pub struct Writable;

/// An event of the network poller: the token of the resource it is for, and whether that
/// resource can be read and written.
#[derive(Debug, Clone, Copy)]
pub struct ReadinessEvent {
    pub token: usize,
    pub readable: bool,
    pub writable: bool,
}

/// Whether some event of `events` says that the resource can be read.
pub open spec fn some_readable(events: Seq<ReadinessEvent>) -> bool {
    exists|i: int| 0 <= i < events.len() && (#[trigger] events[i]).readable
}

/// Whether some event of `events` says that the resource can be written.
pub open spec fn some_writable(events: Seq<ReadinessEvent>) -> bool {
    exists|i: int| 0 <= i < events.len() && (#[trigger] events[i]).writable
}

/// The readiness that the poller's `events` report for the network resource, whose token is
/// `token`: readable when some event says so, writable when some event says so.
pub fn check_readiness(events: &Vec<ReadinessEvent>, token: usize) -> (r: (
    Option<Readable>,
    Option<Writable>,
))
    requires
        forall|i: int| 0 <= i < events@.len() ==> (#[trigger] events@[i]).token == token,
    ensures
        r.0 is Some <==> some_readable(events@),
        r.1 is Some <==> some_writable(events@),
{
    let mut readable: Option<Readable> = None;
    let mut writable: Option<Writable> = None;
    let mut i: usize = 0;
    while i < events.len()
        invariant
            i <= events@.len(),
            readable is Some <==> exists|j: int| 0 <= j < i && (#[trigger] events@[j]).readable,
            writable is Some <==> exists|j: int| 0 <= j < i && (#[trigger] events@[j]).writable,
        decreases events@.len() - i,
    {
        let event = events[i];
        if event.readable {
            readable = Some(Readable);
        }
        if event.writable {
            writable = Some(Writable);
        }
        i = i + 1;
    }
    (readable, writable)
}

} // verus!
