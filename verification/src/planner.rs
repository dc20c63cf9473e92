//! Range planning: splitting a payload of known length into contiguous,
//! non-overlapping byte ranges, one per parallel connection.
//!
//! When range support is not confirmed or the total length is unknown, the
//! plan degrades to a single whole-resource request with no range constraint.

use vstd::prelude::*;

use crate::headers::SupportPartialRequest;

verus! {

/// One planned byte range, inclusive on both ends.
#[derive(Debug, Clone, Copy, PartialEq, Eq, Structural)]
pub struct ByteRange {
    /// First byte of the range.
    pub start: u64,
    /// Last byte of the range.
    pub end: u64,
}

/// The plan for fetching a resource.
#[derive(Debug, Clone)]
pub enum RangePlan {
    /// A single request for the whole resource, with no range constraint.
    Whole,
    /// One ranged request per element, in ascending range order.
    Ranges(Vec<ByteRange>),
}

/// How many ranges a payload of `len` bytes is split into under a requested
/// parallelism: the parallelism itself, capped by the number of bytes so
/// that every range holds at least one byte.
pub open spec fn spec_num_parts(len: u64, par: u64) -> int
    recommends
        len >= 1,
        par >= 1,
{
    if par <= len {
        par as int
    } else {
        len as int
    }
}

/// The size of every range but the last: the total length divided evenly.
pub open spec fn spec_chunk(len: u64, par: u64) -> int
    recommends
        len >= 1,
        par >= 1,
{
    len as int / spec_num_parts(len, par)
}

/// Start byte of range `i`.
pub open spec fn spec_range_start(len: u64, par: u64, i: int) -> int {
    i * spec_chunk(len, par)
}

/// End byte (inclusive) of range `i`: the next start minus one, except that
/// the final range always ends exactly at `len - 1`, absorbing any division
/// remainder.
pub open spec fn spec_range_end(len: u64, par: u64, i: int) -> int {
    if i == spec_num_parts(len, par) - 1 {
        len as int - 1
    } else {
        (i + 1) * spec_chunk(len, par) - 1
    }
}

/// The plan's ranges have exactly the planned starts and ends.
pub open spec fn ranges_follow_plan(v: Seq<ByteRange>, len: u64, par: u64) -> bool {
    &&& v.len() == spec_num_parts(len, par)
    &&& forall|i: int|
        0 <= i < v.len() ==> (#[trigger] v[i]).start == spec_range_start(len, par, i) && v[
            i
        ].end == spec_range_end(len, par, i)
}

/// The conditions under which the plan is split into ranges at all:
/// confirmed range support and a known, positive total length.
pub open spec fn plan_is_ranged(total_length: Option<u64>, support: SupportPartialRequest) -> bool {
    &&& support is Yes
    &&& total_length matches Some(len)
    &&& total_length.unwrap() >= 1
}

/// Computes the range plan.
///
/// Exactly when range support is confirmed and a positive total length is
/// known, the plan is a vector of ranges following the planned starts and
/// ends; in every other case it is a single whole-resource request.
pub fn plan_ranges(
    total_length: Option<u64>,
    parallelism: u8,
    support: SupportPartialRequest,
) -> (r: RangePlan)
    requires
        parallelism >= 1,
    ensures
        (r is Whole) <==> !plan_is_ranged(total_length, support),
        r matches RangePlan::Ranges(v) ==> total_length matches Some(len) && ranges_follow_plan(
            v@,
            len,
            parallelism as u64,
        ),
{
    match support {
        SupportPartialRequest::Yes => {},
        _ => {
            return RangePlan::Whole;
        },
    }
    let len: u64 = match total_length {
        Some(l) => l,
        None => {
            return RangePlan::Whole;
        },
    };
    if len == 0 {
        return RangePlan::Whole;
    }
    let par: u64 = parallelism as u64;
    let n: u64 = if par <= len {
        par
    } else {
        len
    };
    assert(n == spec_num_parts(len, par));
    let chunk: u64 = len / n;
    let mut v: Vec<ByteRange> = Vec::new();
    let mut i: u64 = 0;
    proof {
        assert(chunk >= 1) by (nonlinear_arith)
            requires
                1 <= n <= len,
                chunk == len as int / n as int,
        ;
        assert(n * chunk <= len) by (nonlinear_arith)
            requires
                n >= 1,
                chunk == len as int / n as int,
                len >= 1,
        ;
    }
    while i < n
        invariant
            0 <= i <= n,
            n == spec_num_parts(len, par),
            1 <= n <= len,
            chunk == spec_chunk(len, par),
            1 <= chunk,
            n * chunk <= len,
            v@.len() == i,
            forall|j: int|
                0 <= j < i ==> (#[trigger] v@[j]).start == spec_range_start(len, par, j) && v@[
                    j
                ].end == spec_range_end(len, par, j),
        decreases n - i,
    {
        proof {
            assert((i + 1) * chunk <= len && i * chunk + chunk == (i + 1) * chunk)
                by (nonlinear_arith)
                requires
                    0 <= i <= n - 1,
                    chunk >= 1,
                    n * chunk <= len,
            ;
        }
        let start: u64 = i * chunk;
        let end: u64 = if i == n - 1 {
            len - 1
        } else {
            (i + 1) * chunk - 1
        };
        v.push(ByteRange { start, end });
        i = i + 1;
    }
    RangePlan::Ranges(v)
}

/// Byte `b` falls inside at least one of the ranges.
pub open spec fn covers_byte(v: Seq<ByteRange>, b: int) -> bool {
    exists|i: int| 0 <= i < v.len() && (#[trigger] v[i]).start <= b <= v[i].end
}

/// For every positive total length and parallelism, the planned ranges are
/// ordered ascending by start byte, gap-free, pairwise non-overlapping, and
/// collectively exhaustive over `[0, len)`: the first range starts at byte
/// zero, each later range starts one byte after its predecessor ends, the
/// final range ends exactly at `len - 1`, and every byte of the payload
/// falls in exactly one range.
pub proof fn lemma_plan_ranges_cover(v: Seq<ByteRange>, len: u64, par: u64)
    requires
        len >= 1,
        par >= 1,
        ranges_follow_plan(v, len, par),
    ensures
        v.len() >= 1,
        v[0].start == 0,
        v[v.len() - 1].end == len - 1,
        forall|i: int| 0 <= i < v.len() ==> (#[trigger] v[i]).start <= v[i].end,
        forall|i: int| 0 <= i < v.len() - 1 ==> (#[trigger] v[i]).end + 1 == v[i + 1].start,
        forall|i: int, j: int| 0 <= i < j < v.len() ==> (#[trigger] v[i]).end < (#[trigger] v[j]).start,
        forall|b: int| 0 <= b < len ==> #[trigger] covers_byte(v, b),
{
    let n = spec_num_parts(len, par);
    let chunk = spec_chunk(len, par);
    assert(1 <= n <= len);
    vstd::arithmetic::div_mod::lemma_remainder(len as int, n);
    assert(0 <= len - chunk * n < n) by {
        assert(len as int / n * n == chunk * n) by (nonlinear_arith)
            requires
                chunk == len as int / n,
        ;
    }
    assert(chunk >= 1) by (nonlinear_arith)
        requires
            1 <= n <= len,
            0 <= len - chunk * n < n,
    ;
    assert(n * chunk <= len) by (nonlinear_arith)
        requires
            0 <= len - chunk * n,
    ;
    assert(v[0].start == 0);
    assert forall|i: int| 0 <= i < v.len() implies (#[trigger] v[i]).start <= v[i].end by {
        assert(i * chunk + chunk == (i + 1) * chunk && (i + 1) * chunk <= n * chunk)
            by (nonlinear_arith)
            requires
                0 <= i <= n - 1,
                chunk >= 1,
        ;
    }
    assert forall|i: int| 0 <= i < v.len() - 1 implies (#[trigger] v[i]).end + 1 == v[
        i + 1
    ].start by {
    }
    assert forall|i: int, j: int| 0 <= i < j < v.len() implies (#[trigger] v[i]).end < (
    #[trigger] v[j]).start by {
        assert((i + 1) * chunk <= j * chunk) by (nonlinear_arith)
            requires
                i + 1 <= j,
                chunk >= 1,
        ;
        if i < n - 1 {
            assert(v[i].end == (i + 1) * chunk - 1);
            assert(v[j].start == j * chunk);
        }
    }
    assert forall|b: int| 0 <= b < len implies #[trigger] covers_byte(v, b) by {
        let q = b / chunk;
        assert(0 <= q && q * chunk <= b < (q + 1) * chunk) by (nonlinear_arith)
            requires
                0 <= b,
                chunk >= 1,
                q == b / chunk,
        ;
        if q < n - 1 {
            assert(v[q].start <= b <= v[q].end);
        } else {
            let w = n - 1;
            assert(w * chunk <= q * chunk) by (nonlinear_arith)
                requires
                    w <= q,
                    chunk >= 1,
            ;
            assert(v[w].start <= b <= v[w].end);
        }
    }
}

} // verus!
