//! What the two directions of a relay report when they are done.

use vstd::prelude::*;

verus! {

/// How one direction of a relay ended.
#[derive(Debug, Clone, Copy, PartialEq, Eq, Structural)]
pub enum CopyEnd {
    /// The reader reached its end after this many bytes were passed on.
    Eof(u64),
    /// Reading or writing failed.
    Failed,
}

/// The byte counts of a finished relay.
#[derive(Debug, Clone, Copy, PartialEq, Eq, Structural)]
pub struct RelayTotals {
    /// Bytes copied from the client to the upstream.
    pub sent: u64,
    /// Bytes copied from the upstream to the client.
    pub received: u64,
}

/// The number of bytes that one direction reports: those copied up to the
/// end of the stream, and zero after a failure, which is not passed on.
pub fn copy(end: CopyEnd) -> (bytes: u64)
    ensures
        end matches CopyEnd::Eof(n) ==> bytes == n,
        end is Failed ==> bytes == 0,
{
    match end {
        CopyEnd::Eof(n) => n,
        CopyEnd::Failed => 0,
    }
}

/// Whether the write side of the destination is shut down after the copy,
/// so that the peer sees the end of the stream: only after the reader's end
/// was reached.
pub fn shuts_down_writer(end: CopyEnd) -> (r: bool)
    ensures
        r == (end is Eof),
{
    match end {
        CopyEnd::Eof(_) => true,
        CopyEnd::Failed => false,
    }
}

/// The totals of a relay whose two directions ended as given.
pub fn join(outbound: CopyEnd, inbound: CopyEnd) -> (totals: RelayTotals)
    ensures
        outbound matches CopyEnd::Eof(n) ==> totals.sent == n,
        outbound is Failed ==> totals.sent == 0,
        inbound matches CopyEnd::Eof(n) ==> totals.received == n,
        inbound is Failed ==> totals.received == 0,
{
    RelayTotals { sent: copy(outbound), received: copy(inbound) }
}

} // verus!
