use rustle::headers::SupportPartialRequest;
use rustle::planner::{plan_ranges, ByteRange, RangePlan};

fn ranges_of(plan: RangePlan) -> Vec<ByteRange> {
    match plan {
        RangePlan::Ranges(v) => v,
        RangePlan::Whole => panic!("expected a ranged plan"),
    }
}

fn assert_covering(v: &[ByteRange], total: u64) {
    assert_eq!(v[0].start, 0);
    for i in 0..v.len() {
        assert!(v[i].start <= v[i].end);
        if i + 1 < v.len() {
            assert_eq!(v[i].end + 1, v[i + 1].start);
            assert!(v[i].start < v[i + 1].start);
        }
    }
    assert_eq!(v[v.len() - 1].end, total - 1);
}

#[test]
fn splits_evenly_when_divisible() {
    let v = ranges_of(plan_ranges(Some(1000000), 4, SupportPartialRequest::Yes));
    assert_eq!(v.len(), 4);
    assert_eq!(v[0], ByteRange { start: 0, end: 249999 });
    assert_eq!(v[1], ByteRange { start: 250000, end: 499999 });
    assert_eq!(v[2], ByteRange { start: 500000, end: 749999 });
    assert_eq!(v[3], ByteRange { start: 750000, end: 999999 });
    assert_covering(&v, 1000000);
}

#[test]
fn last_range_absorbs_remainder() {
    let v = ranges_of(plan_ranges(Some(10), 3, SupportPartialRequest::Yes));
    assert_eq!(v.len(), 3);
    assert_eq!(v[0], ByteRange { start: 0, end: 2 });
    assert_eq!(v[1], ByteRange { start: 3, end: 5 });
    assert_eq!(v[2], ByteRange { start: 6, end: 9 });
    assert_covering(&v, 10);
}

#[test]
fn parallelism_capped_by_length() {
    let v = ranges_of(plan_ranges(Some(2), 8, SupportPartialRequest::Yes));
    assert_eq!(v.len(), 2);
    assert_eq!(v[0], ByteRange { start: 0, end: 0 });
    assert_eq!(v[1], ByteRange { start: 1, end: 1 });
    assert_covering(&v, 2);
}

#[test]
fn single_byte_resource() {
    let v = ranges_of(plan_ranges(Some(1), 4, SupportPartialRequest::Yes));
    assert_eq!(v.len(), 1);
    assert_eq!(v[0], ByteRange { start: 0, end: 0 });
}

#[test]
fn one_connection_takes_whole_span() {
    let v = ranges_of(plan_ranges(Some(12345), 1, SupportPartialRequest::Yes));
    assert_eq!(v.len(), 1);
    assert_eq!(v[0], ByteRange { start: 0, end: 12344 });
}

#[test]
fn no_support_yields_single_whole_plan() {
    assert!(matches!(
        plan_ranges(Some(1000000), 4, SupportPartialRequest::No),
        RangePlan::Whole
    ));
    assert!(matches!(
        plan_ranges(Some(1000000), 4, SupportPartialRequest::Unknown),
        RangePlan::Whole
    ));
}

#[test]
fn unknown_length_yields_single_whole_plan() {
    assert!(matches!(
        plan_ranges(None, 4, SupportPartialRequest::Yes),
        RangePlan::Whole
    ));
}

#[test]
fn zero_length_yields_single_whole_plan() {
    assert!(matches!(
        plan_ranges(Some(0), 4, SupportPartialRequest::Yes),
        RangePlan::Whole
    ));
}

#[test]
fn sixty_four_megabytes_in_four_parts() {
    let total: u64 = 64 * 1024 * 1024;
    let v = ranges_of(plan_ranges(Some(total), 4, SupportPartialRequest::Yes));
    assert_eq!(v.len(), 4);
    let sixteen: u64 = 16 * 1024 * 1024;
    for i in 0..4u64 {
        let r = v[i as usize];
        assert_eq!(r.start, i * sixteen);
        assert_eq!(r.end - r.start + 1, sixteen);
    }
    assert_covering(&v, total);
}
