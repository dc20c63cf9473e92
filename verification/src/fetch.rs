//! Part fetching: the verifiable half of one ranged request.
//!
//! The request itself and the chunk stream are I/O and live outside the
//! library. What is decided here, under contract: the `Range` header value
//! for a planned byte range, the acceptance rule for the response status
//! (206 Partial Content and nothing else), chunk accumulation into the
//! part's buffer, and the throughput computed over active transfer time.

use vstd::prelude::*;

use crate::errors::FetchError;
use crate::strutil::{dec_seq, u64_to_string};

verus! {

/// Per-part mutable progress counters.
#[derive(Debug, Clone, Copy, PartialEq, Eq, Structural)]
pub struct PartDownloadInfo {
    /// Number of bytes downloaded for this part so far.
    pub downloaded_bytes: usize,
    /// Download speed for this part, in bytes per second of active
    /// (non-paused) transfer time.
    pub download_speed: u64,
}

/// The value of the `Range` request header for an inclusive byte range:
/// `bytes=<start>-<end>`.
pub open spec fn spec_range_header(start: u64, end: u64) -> Seq<char> {
    seq!['b', 'y', 't', 'e', 's', '='] + dec_seq(start as int) + seq!['-'] + dec_seq(end as int)
}

/// Renders the `Range` request header value for an inclusive byte range.
pub fn range_header_value(start: u64, end: u64) -> (r: String)
    ensures
        r@ == spec_range_header(start, end),
{
    proof {
        reveal_strlit("bytes=");
        reveal_strlit("-");
    }
    let mut s = String::new();
    s.append("bytes=");
    let a = u64_to_string(start);
    s.append(a.as_str());
    s.append("-");
    let b = u64_to_string(end);
    s.append(b.as_str());
    proof {
        assert("bytes="@ =~= seq!['b', 'y', 't', 'e', 's', '=']);
        assert("-"@ =~= seq!['-']);
        assert(s@ =~= spec_range_header(start, end));
    }
    s
}

/// The acceptance rule for a ranged request's response: succeeds exactly on
/// 206 Partial Content; any other status is an `UnexpectedStatus` failure
/// carrying the observed status and the response body.
pub fn check_part_status(status: u16, body: String) -> (r: Result<(), FetchError>)
    ensures
        r is Ok <==> status == 206,
        r matches Err(e) ==> e matches FetchError::UnexpectedStatus(sc, b) && sc == status && b@
            == body@,
{
    if status == 206 {
        Ok(())
    } else {
        Err(FetchError::UnexpectedStatus(status, body))
    }
}

/// Appends a received chunk to a part's growing buffer, preserving every
/// byte already streamed and adding exactly the chunk's bytes.
pub fn append_chunk(buffer: &mut Vec<u8>, chunk: &Vec<u8>)
    ensures
        final(buffer)@ == old(buffer)@ + chunk@,
{
    let m = chunk.len();
    let mut k: usize = 0;
    while k < m
        invariant
            0 <= k <= m,
            m == chunk@.len(),
            buffer@ == old(buffer)@ + chunk@.subrange(0, k as int),
        decreases m - k,
    {
        let b = chunk[k];
        buffer.push(b);
        assert(buffer@ =~= old(buffer)@ + chunk@.subrange(0, k + 1));
        k = k + 1;
    }
    assert(buffer@ =~= old(buffer)@ + chunk@);
}

/// Throughput in bytes per second: bytes over active milliseconds, zero
/// while no active time has elapsed, saturating at `u64::MAX`.
pub open spec fn spec_speed(bytes: int, active_ms: int) -> int {
    if active_ms <= 0 {
        0
    } else if bytes * 1000 / active_ms > u64::MAX {
        u64::MAX as int
    } else {
        bytes * 1000 / active_ms
    }
}

/// Computes a part's download speed from its byte count and its active
/// (pause-corrected) elapsed time, guarding against division by zero on the
/// very first tick.
pub fn compute_speed(bytes: usize, active_ms: u64) -> (r: u64)
    ensures
        r == spec_speed(bytes as int, active_ms as int),
{
    if active_ms == 0 {
        return 0;
    }
    let num: u128 = (bytes as u128) * 1000;
    let q: u128 = num / (active_ms as u128);
    if q > u64::MAX as u128 {
        u64::MAX
    } else {
        q as u64
    }
}

} // verus!
