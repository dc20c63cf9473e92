//! Capability probing: interpretation of the response headers of the
//! preliminary request.
//!
//! The probe request itself is plain I/O and lives outside the library; the
//! header values it observed are handed in here as strings, and every rule
//! for interpreting them is specified and verified:
//!
//! - `Content-Length` must parse as a non-negative integer — digits only,
//!   per HTTP's `1*DIGIT` grammar for the header; a present but unparseable
//!   value is a malformed header.
//! - `Accept-Ranges` supports partial requests exactly when it contains the
//!   token `bytes`.
//! - `Content-Type` is copied verbatim.
//! - The file name comes from `Content-Disposition`'s `filename=` parameter
//!   (quotes stripped), else the URL's last path segment, else a fixed
//!   fallback name; a `Content-Disposition` without a `filename=` parameter
//!   is a malformed header.

use vstd::prelude::*;

use crate::errors::ProbeError;
use crate::strutil::{
    find_char_from, lemma_find_char_from, parse_u64, spec_contains_seq, spec_parse_u64,
    spec_starts_with, spec_trim_chars, spec_trim_ws, str_char_len, str_contains_str,
    str_find_char_from, str_starts_with, str_trim_chars, str_trim_ws,
};

verus! {

/// The level of support for partial (byte-range) requests.
#[derive(Debug, Clone, Copy, PartialEq, Eq, Structural)]
pub enum SupportPartialRequest {
    /// Partial requests are supported.
    Yes,
    /// Partial requests are not supported.
    No,
    /// Support for partial requests is unknown.
    Unknown,
}

impl Default for SupportPartialRequest {
    /// Before a probe has run, support is unknown.
    fn default() -> (r: Self)
        ensures
            r is Unknown,
    {
        SupportPartialRequest::Unknown
    }
}

/// The header information derived from the probe response.
#[derive(Debug)]
pub struct ResponseHeaderInfo {
    /// Whether partial downloading is supported.
    pub support_partial: SupportPartialRequest,
    /// Length of the content in bytes, when the origin reported one.
    pub content_length: Option<u64>,
    /// MIME type of the content, copied verbatim.
    pub content_type: Option<String>,
    /// Resolved name for the downloaded file.
    pub file_name: Option<String>,
}

/// The token inside `Accept-Ranges` that signals range support.
pub open spec fn bytes_token() -> Seq<char> {
    seq!['b', 'y', 't', 'e', 's']
}

/// The parameter name that introduces a file name inside
/// `Content-Disposition`.
pub open spec fn filename_prefix() -> Seq<char> {
    seq!['f', 'i', 'l', 'e', 'n', 'a', 'm', 'e', '=']
}

/// The fallback file name when neither the headers nor the URL offer one.
pub open spec fn default_file_name() -> Seq<char> {
    seq!['d', 'o', 'w', 'n', 'l', 'o', 'a', 'd', '_', 'f', 'i', 'l', 'e']
}

/// Whether one `;`-separated part of a `Content-Disposition` value carries
/// the `filename=` parameter.
pub open spec fn cd_part_is_filename(part: Seq<char>) -> bool {
    spec_starts_with(spec_trim_ws(part), filename_prefix())
}

/// The file name carried by a `filename=` part: the text between the first
/// and second `=` of the trimmed part, with surrounding double then single
/// quote characters stripped.
pub open spec fn cd_part_value(part: Seq<char>) -> Seq<char>
    recommends
        cd_part_is_filename(part),
{
    let t = spec_trim_ws(part);
    let e = find_char_from(t, '=', 9);
    let raw = t.subrange(9, e);
    spec_trim_chars(spec_trim_chars(raw, '"', '"'), '\'', '\'')
}

/// The file name of a `Content-Disposition` value, scanning its
/// `;`-separated parts from `i` on: the first part carrying `filename=`
/// decides; `None` when no part carries it.
pub open spec fn cd_filename_from(s: Seq<char>, i: int) -> Option<Seq<char>>
    recommends
        0 <= i <= s.len(),
    decreases s.len() - i + 1,
    via cd_filename_from_dec
{
    if i < 0 || i > s.len() {
        None
    } else {
        let k = find_char_from(s, ';', i);
        let part = s.subrange(i, k);
        if cd_part_is_filename(part) {
            Some(cd_part_value(part))
        } else if k >= s.len() {
            None
        } else {
            cd_filename_from(s, k + 1)
        }
    }
}

#[via_fn]
proof fn cd_filename_from_dec(s: Seq<char>, i: int) {
    if 0 <= i <= s.len() {
        lemma_find_char_from(s, ';', i);
    }
}

/// The file name carried by a whole `Content-Disposition` value, if any.
pub open spec fn cd_filename(s: Seq<char>) -> Option<Seq<char>> {
    cd_filename_from(s, 0)
}

/// A present `Content-Length` that does not parse as a `u64`.
pub open spec fn cl_malformed(cl: Option<Seq<char>>) -> bool {
    cl matches Some(s) && spec_parse_u64(s) is None
}

/// A present `Content-Disposition` with no `filename=` parameter.
pub open spec fn cd_malformed(cd: Option<Seq<char>>) -> bool {
    cd matches Some(s) && cd_filename(s) is None
}

/// The total length derived from `Content-Length`.
pub open spec fn spec_total_length(cl: Option<Seq<char>>) -> Option<u64> {
    match cl {
        Some(s) => spec_parse_u64(s),
        None => None,
    }
}

/// The range support derived from `Accept-Ranges`.
pub open spec fn spec_support(ar: Option<Seq<char>>) -> SupportPartialRequest {
    match ar {
        Some(s) => if spec_contains_seq(s, bytes_token()) {
            SupportPartialRequest::Yes
        } else {
            SupportPartialRequest::No
        },
        None => SupportPartialRequest::Unknown,
    }
}

/// The resolved file name: `Content-Disposition`'s `filename=` value, else
/// the URL's last path segment, else the fixed fallback.
pub open spec fn spec_file_name(cd: Option<Seq<char>>, seg: Option<Seq<char>>) -> Seq<char>
    recommends
        !cd_malformed(cd),
{
    match cd {
        Some(s) => cd_filename(s).unwrap(),
        None => match seg {
            Some(g) => g,
            None => default_file_name(),
        },
    }
}

impl Clone for ResponseHeaderInfo {
    fn clone(&self) -> (r: Self)
        ensures
            r.support_partial == self.support_partial,
            r.content_length == self.content_length,
            r.content_type.deep_view() == self.content_type.deep_view(),
            r.file_name.deep_view() == self.file_name.deep_view(),
    {
        ResponseHeaderInfo {
            support_partial: self.support_partial,
            content_length: self.content_length,
            content_type: clone_opt_string(&self.content_type),
            file_name: clone_opt_string(&self.file_name),
        }
    }
}

/// Clones an optional string, preserving its contents.
pub fn clone_opt_string(s: &Option<String>) -> (r: Option<String>)
    ensures
        r.deep_view() == s.deep_view(),
{
    match s {
        Some(t) => Some(t.clone()),
        None => None,
    }
}

/// Derives the capability information from the probe response's headers and
/// the target URL's last path segment.
///
/// Succeeds exactly when any present `Content-Length` parses as a `u64` and
/// any present `Content-Disposition` carries a `filename=` parameter; the
/// failures are malformed-header errors. On success every field is pinned:
/// range support from `Accept-Ranges`, total length from `Content-Length`,
/// the content type verbatim, and the file name by the resolution order of
/// `Content-Disposition`, URL path segment, fixed fallback.
pub fn extract_header_info(
    content_length: Option<&str>,
    accept_ranges: Option<&str>,
    content_type: Option<&str>,
    content_disposition: Option<&str>,
    url_last_segment: Option<&str>,
) -> (r: Result<ResponseHeaderInfo, ProbeError>)
    ensures
        r is Ok <==> !cl_malformed(content_length.deep_view()) && !cd_malformed(
            content_disposition.deep_view(),
        ),
        r matches Ok(h) ==> {
            &&& h.support_partial == spec_support(accept_ranges.deep_view())
            &&& h.content_length == spec_total_length(content_length.deep_view())
            &&& h.content_type.deep_view() == content_type.deep_view()
            &&& h.file_name matches Some(f) && f@ == spec_file_name(
                content_disposition.deep_view(),
                url_last_segment.deep_view(),
            )
        },
        r matches Err(e) ==> e is MalformedHeader,
{
    let total_length: Option<u64> = match content_length {
        Some(cl) => match parse_u64(cl) {
            Some(v) => Some(v),
            None => {
                return Err(
                    ProbeError::MalformedHeader(
                        String::from_str("Content-Length is not a valid number"),
                    ),
                );
            },
        },
        None => None,
    };
    let support_partial = match accept_ranges {
        Some(ar) => if str_contains_str(ar, "bytes") {
            proof {
                reveal_strlit("bytes");
                assert("bytes"@ =~= bytes_token());
            }
            SupportPartialRequest::Yes
        } else {
            proof {
                reveal_strlit("bytes");
                assert("bytes"@ =~= bytes_token());
            }
            SupportPartialRequest::No
        },
        None => SupportPartialRequest::Unknown,
    };
    let content_type_owned: Option<String> = match content_type {
        Some(ct) => Some(ct.to_owned()),
        None => None,
    };
    let file_name: String = match content_disposition {
        Some(cd) => match cd_extract_filename(cd) {
            Some(name) => name,
            None => {
                return Err(
                    ProbeError::MalformedHeader(
                        String::from_str("Filename not found in content-disposition header"),
                    ),
                );
            },
        },
        None => match url_last_segment {
            Some(seg) => seg.to_owned(),
            None => {
                proof {
                    reveal_strlit("download_file");
                    assert("download_file"@ =~= default_file_name());
                }
                String::from_str("download_file")
            },
        },
    };
    Ok(
        ResponseHeaderInfo {
            support_partial,
            content_length: total_length,
            content_type: content_type_owned,
            file_name: Some(file_name),
        },
    )
}

/// Extracts the `filename=` parameter from a `Content-Disposition` value:
/// the first `;`-separated part that (after trimming whitespace) starts with
/// `filename=`, taking the text between the first and second `=` with
/// surrounding quote characters stripped.
pub fn cd_extract_filename(s: &str) -> (r: Option<String>)
    ensures
        r.deep_view() == cd_filename(s@),
{
    proof {
        reveal_strlit("filename=");
        assert("filename="@ =~= filename_prefix());
    }
    let n = str_char_len(s);
    let mut i: usize = 0;
    while i <= n
        invariant
            0 <= i <= n,
            n == s@.len(),
            cd_filename(s@) == cd_filename_from(s@, i as int),
        decreases n - i,
    {
        proof {
            reveal_strlit("filename=");
            assert("filename="@ =~= filename_prefix());
        }
        let k = str_find_char_from(s, ';', i);
        let part = s.substring_char(i, k);
        let trimmed = str_trim_ws(part);
        if str_starts_with(trimmed, "filename=") {
            assert(cd_part_is_filename(part@));
            let e = str_find_char_from(trimmed, '=', 9);
            let raw = trimmed.substring_char(9, e);
            let unquoted = str_trim_chars(str_trim_chars(raw, '"', '"'), '\'', '\'');
            let name = unquoted.to_owned();
            assert(name@ == cd_part_value(part@));
            return Some(name);
        }
        assert(!cd_part_is_filename(s@.subrange(i as int, k as int)));
        if k >= n {
            assert(cd_filename_from(s@, i as int) is None);
            return None;
        }
        proof {
            lemma_find_char_from(s@, ';', i as int);
        }
        i = k + 1;
    }
    None
}

} // verus!
