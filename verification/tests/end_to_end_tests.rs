use rustle::downloader::{assemble_parts, DownloadStatus, RustleDownloader};
use rustle::headers::extract_header_info;
use rustle::planner::{ByteRange, RangePlan};

fn synthetic_payload(len: usize) -> Vec<u8> {
    let mut whole: Vec<u8> = Vec::with_capacity(len);
    let mut x: u32 = 0x12345678;
    for _ in 0..len {
        x = x.wrapping_mul(1664525).wrapping_add(1013904223);
        whole.push((x >> 24) as u8);
    }
    whole
}

fn slice_parts(whole: &[u8], ranges: &[ByteRange]) -> Vec<Vec<u8>> {
    let mut parts: Vec<Vec<u8>> = Vec::new();
    for r in ranges {
        parts.push(whole[r.start as usize..=r.end as usize].to_vec());
    }
    parts
}

#[test]
fn sixty_four_megabyte_transfer_round_trips() {
    let total: usize = 64 * 1024 * 1024;
    let mut job = RustleDownloader::new(4).unwrap();
    job.set_url("https://example.com/big.bin").unwrap();
    job.set_out_dir("/tmp/out").unwrap();
    let info = extract_header_info(
        Some(&total.to_string()),
        Some("bytes"),
        None,
        None,
        Some("big.bin"),
    )
    .unwrap();
    job.record_probe(info);
    let plan = job.start().unwrap();
    let ranges = match plan {
        RangePlan::Ranges(v) => v,
        RangePlan::Whole => panic!("expected a ranged plan"),
    };
    assert_eq!(ranges.len(), 4);
    let sixteen: u64 = 16 * 1024 * 1024;
    for (i, r) in ranges.iter().enumerate() {
        assert_eq!(r.end - r.start + 1, sixteen);
        assert_eq!(r.start, i as u64 * sixteen);
    }

    let whole = synthetic_payload(total);
    // Parts are produced concurrently; assembly order is the plan order,
    // whatever order they finished in.
    let parts = slice_parts(&whole, &ranges);
    let assembled = assemble_parts(&parts);
    assert_eq!(assembled.len(), total);
    assert!(assembled == whole);

    job.finish();
    assert_eq!(job.get_status(), DownloadStatus::Done);
}

#[test]
fn assembly_is_independent_of_completion_order() {
    let whole: Vec<u8> = (0u32..1000).map(|i| (i % 251) as u8).collect();
    let ranges = vec![
        ByteRange { start: 0, end: 332 },
        ByteRange { start: 333, end: 665 },
        ByteRange { start: 666, end: 999 },
    ];
    // Simulate parts finishing out of order: buffers are stored by index,
    // not by completion time, so the assembled result is the same.
    let mut parts: Vec<Vec<u8>> = vec![Vec::new(), Vec::new(), Vec::new()];
    for &i in &[2usize, 0, 1] {
        let r = ranges[i];
        parts[i] = whole[r.start as usize..=r.end as usize].to_vec();
    }
    assert_eq!(assemble_parts(&parts), whole);
}
