//! Judging the end of a bidirectional copy between two streams.
use vstd::prelude::*;

use crate::protocol::encoding::{contains_bytes, contains_subslice};

verus! {

/// `error 0`: an error text with it is a QUIC stream closed with code 0, a
/// graceful shutdown.
pub open spec fn graceful_marker() -> Seq<u8> {
    seq![101, 114, 114, 111, 114, 32, 48]
}

/// How a bidirectional copy ended.
#[derive(Debug)]
pub enum CopyOutcome {
    /// Both directions finished; bytes read from stream A and from stream B.
    Completed { bytes_a: u64, bytes_b: u64 },
    /// The copy failed with this error text, after reading these many bytes
    /// from stream A and from stream B.
    Failed { message: Vec<u8>, bytes_a: u64, bytes_b: u64 },
}

/// The copy failed other than by a graceful shutdown.
#[derive(Clone, Copy, Debug, PartialEq, Eq, Structural)]
pub struct CopyFailed;

/// True when the error text reports a graceful shutdown: it contains `error 0`.
pub fn is_graceful_shutdown(message: &[u8]) -> (graceful: bool)
    ensures
        graceful == contains_bytes(message@, graceful_marker()),
{
    let marker: Vec<u8> = vec![101, 114, 114, 111, 114, 32, 48];
    assert(marker@ =~= graceful_marker());
    contains_subslice(message, marker.as_slice())
}

/// The result of forwarding: the byte counts to record, for a completed copy
/// and for one that ended in a graceful shutdown alike, and an error for any
/// other failure (whose bytes are not recorded).
pub fn settle_copy(outcome: &CopyOutcome) -> (settled: Result<(u64, u64), CopyFailed>)
    ensures
        settled == match outcome {
            CopyOutcome::Completed { bytes_a, bytes_b } => Ok((*bytes_a, *bytes_b)),
            CopyOutcome::Failed { message, bytes_a, bytes_b } => if contains_bytes(
                message@,
                graceful_marker(),
            ) {
                Ok((*bytes_a, *bytes_b))
            } else {
                Err(CopyFailed)
            },
        },
{
    match outcome {
        CopyOutcome::Completed { bytes_a, bytes_b } => Ok((*bytes_a, *bytes_b)),
        CopyOutcome::Failed { message, bytes_a, bytes_b } => if is_graceful_shutdown(
            message.as_slice(),
        ) {
            Ok((*bytes_a, *bytes_b))
        } else {
            Err(CopyFailed)
        },
    }
}

} // verus!
