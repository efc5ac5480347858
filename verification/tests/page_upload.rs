use azure_storage_cli::page_driver::{zero_pad, PageAction, PageError, PageUploadDriver};

/// Drive an upload to completion, returning the declared length and the
/// `(start, read_len, write_len)` of every page write.
fn drive(total_length: u64, window: u64) -> (u64, Vec<(u64, u64, u64)>) {
    let mut driver = PageUploadDriver::new(total_length, window);
    let mut created = None;
    let mut writes = Vec::new();
    loop {
        match driver.next_action().expect("walk must not abort") {
            PageAction::Create { length } => {
                assert!(created.is_none());
                created = Some(length);
            }
            PageAction::WritePage { start, read_len, write_len } => {
                writes.push((start, read_len, write_len));
            }
            PageAction::Finished => return (created.expect("create must happen"), writes),
        }
    }
}

#[test]
fn thousand_bytes_single_window() {
    // One window: the object is allocated at the padded length and written
    // with one range [0, 1023] of 1000 real bytes plus 24 zeros.
    let (length, writes) = drive(1000, 4096);
    assert_eq!(length, 1024);
    assert_eq!(writes, vec![(0, 1000, 1024)]);
}

#[test]
fn five_thousand_bytes_in_two_kib_windows() {
    let (length, writes) = drive(5000, 2048);
    assert_eq!(length, 5120);
    assert_eq!(writes, vec![(0, 2048, 2048), (2048, 2048, 2048), (4096, 904, 1024)]);
}

#[test]
fn empty_file_allocates_and_writes_nothing() {
    let (length, writes) = drive(0, 4096);
    assert_eq!(length, 0);
    assert!(writes.is_empty());
}

#[test]
fn exact_window_multiple_skips_trailing_empty_write() {
    // The padded length is an exact multiple of the window; the walk must
    // not issue a zero-length write past the end.
    let (length, writes) = drive(2048, 1024);
    assert_eq!(length, 2048);
    assert_eq!(writes, vec![(0, 1024, 1024), (1024, 1024, 1024)]);
}

#[test]
fn ranges_are_aligned_and_tile_the_padded_length() {
    for (n, w) in [(1000u64, 4096u64), (5000, 2048), (2048, 1024), (512, 512), (513, 512), (100_000, 4096)] {
        let (length, writes) = drive(n, w);
        assert_eq!(length, n.div_ceil(512) * 512);
        let mut expected_start = 0;
        for (start, read_len, write_len) in &writes {
            assert_eq!(start % 512, 0);
            assert_eq!(write_len % 512, 0);
            assert!(*read_len > 0 && read_len <= write_len);
            assert_eq!(*start, expected_start);
            expected_start = start + write_len;
        }
        // No gaps, no overlap, exact coverage of [0, padded length).
        assert_eq!(expected_start, length);
        // The walk advances by read lengths, which sum to the true length.
        assert_eq!(writes.iter().map(|w| w.1).sum::<u64>(), n);
    }
}

#[test]
fn misaligned_window_aborts_at_second_range() {
    let mut driver = PageUploadDriver::new(3000, 1000);
    assert!(matches!(
        driver.next_action(),
        Ok(PageAction::Create { length: 3072 })
    ));
    assert!(matches!(
        driver.next_action(),
        Ok(PageAction::WritePage { start: 0, read_len: 1000, write_len: 1024 })
    ));
    assert!(matches!(
        driver.next_action(),
        Err(PageError::UnalignedWindow { start: 1000 })
    ));
}

#[test]
fn misaligned_window_is_fine_for_a_single_window_file() {
    let (length, writes) = drive(900, 1000);
    assert_eq!(length, 1024);
    assert_eq!(writes, vec![(0, 900, 1024)]);
}

#[test]
fn very_large_page_source_walks_without_overflow() {
    let n = 1u64 << 40;
    let w = 1u64 << 30;
    let (length, writes) = drive(n, w);
    assert_eq!(length, n);
    assert_eq!(writes.len(), 1024);
    assert_eq!(writes[0], (0, w, w));
    assert_eq!(writes[1023], (1023 * w, w, w));
}

#[test]
fn zero_pad_keeps_bytes_and_appends_zeros() {
    let mut buf = vec![7u8; 1000];
    zero_pad(&mut buf, 1024);
    assert_eq!(buf.len(), 1024);
    assert!(buf[..1000].iter().all(|b| *b == 7));
    assert!(buf[1000..].iter().all(|b| *b == 0));
}

#[test]
fn zero_pad_to_same_length_changes_nothing() {
    let mut buf = vec![1u8, 2, 3];
    zero_pad(&mut buf, 3);
    assert_eq!(buf, vec![1, 2, 3]);
}
