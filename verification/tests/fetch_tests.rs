use rustle::errors::FetchError;
use rustle::fetch::{append_chunk, check_part_status, compute_speed, range_header_value};

#[test]
fn partial_content_is_accepted() {
    assert!(check_part_status(206, String::new()).is_ok());
}

#[test]
fn plain_ok_status_is_rejected_for_ranged_request() {
    let r = check_part_status(200, String::from("full body"));
    match r {
        Err(FetchError::UnexpectedStatus(status, body)) => {
            assert_eq!(status, 200);
            assert_eq!(body, "full body");
        },
        _ => panic!("expected an unexpected-status failure"),
    }
}

#[test]
fn other_statuses_are_rejected_too() {
    assert!(matches!(
        check_part_status(404, String::new()),
        Err(FetchError::UnexpectedStatus(404, _))
    ));
    assert!(matches!(
        check_part_status(500, String::new()),
        Err(FetchError::UnexpectedStatus(500, _))
    ));
}

#[test]
fn range_header_renders_bounds() {
    assert_eq!(range_header_value(0, 249999), "bytes=0-249999");
    assert_eq!(range_header_value(750000, 999999), "bytes=750000-999999");
    assert_eq!(range_header_value(0, 0), "bytes=0-0");
}

#[test]
fn chunks_accumulate_in_order() {
    let mut buf: Vec<u8> = Vec::new();
    append_chunk(&mut buf, &vec![1, 2, 3]);
    append_chunk(&mut buf, &vec![]);
    append_chunk(&mut buf, &vec![4, 5]);
    assert_eq!(buf, vec![1, 2, 3, 4, 5]);
}

#[test]
fn speed_is_bytes_per_second_of_active_time() {
    assert_eq!(compute_speed(1000, 1000), 1000);
    assert_eq!(compute_speed(1000, 500), 2000);
    assert_eq!(compute_speed(999, 2000), 499);
}

#[test]
fn speed_is_zero_before_any_active_time() {
    assert_eq!(compute_speed(12345, 0), 0);
}
