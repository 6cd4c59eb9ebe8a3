//! The bookkeeping of one asset transfer: whether the response may be
//! streamed at all, and how many bytes have reached the destination.

use vstd::prelude::*;
use crate::status::{is_success, is_success_status};

verus! {

/// Why a transfer ended without the asset.
#[derive(Clone, Debug, PartialEq, Eq)]
pub enum FetchError {
    /// The request or the body stream failed in transit.
    Transport { detail: String },
    /// The server answered with a status outside the success class.
    ServerError { status: u16 },
    /// The destination could not be created or written.
    Write { detail: String },
}

/// A transfer whose response was accepted.
#[derive(Clone, Debug, PartialEq, Eq)]
pub struct Transfer {
    /// The length that the response declared, where it declared one.
    pub expected_total: Option<u64>,
    /// The bytes written to the destination so far.
    pub written: u64,
}

impl Transfer {
    /// Starts the bookkeeping for a response with the given status and
    /// declared content length.
    ///
    /// A status outside the success class ends the transfer before anything
    /// is written.
    pub fn begin(status: u16, content_length: Option<u64>) -> (result: Result<Transfer, FetchError>)
        ensures
            is_success(status) ==> result == Ok::<Transfer, FetchError>(
                Transfer { expected_total: content_length, written: 0 },
            ),
            !is_success(status) ==> result == Err::<Transfer, FetchError>(
                FetchError::ServerError { status },
            ),
    {
        if is_success_status(status) {
            Ok(Transfer { expected_total: content_length, written: 0 })
        } else {
            Err(FetchError::ServerError { status })
        }
    }

    /// Counts a chunk of `length` bytes that was written to the destination,
    /// and reports the bytes written so far.
    pub fn advance(&mut self, length: usize) -> (cumulative: u64)
        requires
            old(self).written + length <= u64::MAX,
        ensures
            cumulative == old(self).written + length,
            final(self).written == cumulative,
            final(self).expected_total == old(self).expected_total,
    {
        self.written = self.written + length as u64;
        self.written
    }

    /// Ends the transfer after the last chunk: the number of bytes written.
    pub fn finish(self) -> (written: u64)
        ensures
            written == self.written,
    {
        self.written
    }
}

} // verus!
