use rustle::errors::ProbeError;
use rustle::headers::{cd_extract_filename, extract_header_info, SupportPartialRequest};

#[test]
fn probe_reads_range_support_and_length() {
    let info = extract_header_info(
        Some("1000000"),
        Some("bytes"),
        None,
        None,
        None,
    )
    .unwrap();
    assert_eq!(info.support_partial, SupportPartialRequest::Yes);
    assert_eq!(info.content_length, Some(1000000));
}

#[test]
fn accept_ranges_without_bytes_token_means_no() {
    let info = extract_header_info(None, Some("none"), None, None, None).unwrap();
    assert_eq!(info.support_partial, SupportPartialRequest::No);
}

#[test]
fn absent_accept_ranges_means_unknown() {
    let info = extract_header_info(None, None, None, None, None).unwrap();
    assert_eq!(info.support_partial, SupportPartialRequest::Unknown);
    assert_eq!(info.content_length, None);
}

#[test]
fn malformed_content_length_fails_probe() {
    let r = extract_header_info(Some("12a4"), None, None, None, None);
    assert!(matches!(r, Err(ProbeError::MalformedHeader(_))));
    let r = extract_header_info(Some(""), None, None, None, None);
    assert!(matches!(r, Err(ProbeError::MalformedHeader(_))));
    let r = extract_header_info(Some("99999999999999999999999"), None, None, None, None);
    assert!(matches!(r, Err(ProbeError::MalformedHeader(_))));
}

#[test]
fn content_type_copied_verbatim() {
    let info = extract_header_info(
        None,
        None,
        Some("application/octet-stream"),
        None,
        None,
    )
    .unwrap();
    assert_eq!(info.content_type.as_deref(), Some("application/octet-stream"));
}

#[test]
fn filename_from_content_disposition_quotes_stripped() {
    let info = extract_header_info(
        None,
        None,
        None,
        Some("attachment; filename=\"report.pdf\""),
        None,
    )
    .unwrap();
    assert_eq!(info.file_name.as_deref(), Some("report.pdf"));
}

#[test]
fn filename_single_quotes_stripped() {
    let info = extract_header_info(None, None, None, Some("filename='a.txt'"), None).unwrap();
    assert_eq!(info.file_name.as_deref(), Some("a.txt"));
}

#[test]
fn content_disposition_without_filename_fails_probe() {
    let r = extract_header_info(None, None, None, Some("attachment"), None);
    assert!(matches!(r, Err(ProbeError::MalformedHeader(_))));
}

#[test]
fn filename_falls_back_to_url_segment() {
    let info = extract_header_info(None, None, None, None, Some("data.bin")).unwrap();
    assert_eq!(info.file_name.as_deref(), Some("data.bin"));
}

#[test]
fn filename_falls_back_to_fixed_default() {
    let info = extract_header_info(None, None, None, None, None).unwrap();
    assert_eq!(info.file_name.as_deref(), Some("download_file"));
}

#[test]
fn cd_filename_takes_first_filename_part() {
    assert_eq!(
        cd_extract_filename("attachment; filename=\"x.tar.gz\"; size=3").as_deref(),
        Some("x.tar.gz")
    );
    assert_eq!(
        cd_extract_filename("form-data; name=\"f\"; filename=plain.txt").as_deref(),
        Some("plain.txt")
    );
    assert_eq!(cd_extract_filename("inline").as_deref(), None);
}

#[test]
fn cd_filename_value_stops_at_second_equals() {
    assert_eq!(
        cd_extract_filename("filename=a=b").as_deref(),
        Some("a")
    );
}
