use rust_service::workload::compute_checksum;
use rust_service::workload::make_buffers;
use rust_service::workload::run_workload;

#[test]
fn buffers_have_fixed_shape() {
    let bufs = make_buffers();
    assert_eq!(bufs.len(), 1000);
    for buf in &bufs {
        assert_eq!(buf.len(), 1024);
        for &b in buf {
            assert_eq!(b, 0);
        }
    }
}

#[test]
fn checksum_of_zero_buffers_is_zero() {
    let bufs = make_buffers();
    assert_eq!(compute_checksum(&bufs), 0);
}

#[test]
fn checksum_adds_every_64th_byte() {
    // One buffer of 130 ascending bytes: offsets 0, 64 and 128 are sampled.
    let buf: Vec<u8> = (0..130).map(|i| i as u8).collect();
    let bufs = vec![buf];
    assert_eq!(compute_checksum(&bufs), 0 + 64 + 128);
}

#[test]
fn checksum_sums_over_buffers() {
    let bufs = vec![vec![3, 5], vec![7]];
    // Only offset 0 of each short buffer is sampled.
    assert_eq!(compute_checksum(&bufs), 3 + 7);
}

#[test]
fn checksum_of_empty_workload_is_zero() {
    let bufs: Vec<Vec<u8>> = Vec::new();
    assert_eq!(compute_checksum(&bufs), 0);
}

#[test]
fn checksum_near_max_sample() {
    // 255 at every sampled offset of a full-size buffer: 16 samples.
    let mut buf = vec![0u8; 1024];
    let mut i = 0;
    while i < 1024 {
        buf[i] = 255;
        i += 64;
    }
    let bufs = vec![buf];
    assert_eq!(compute_checksum(&bufs), 16 * 255);
}

#[test]
fn workload_response_is_ok_checksum_zero() {
    assert_eq!(run_workload(), "ok (checksum: 0)");
}
