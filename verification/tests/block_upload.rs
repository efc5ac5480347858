use azure_storage_cli::block_driver::{BlockAction, BlockUploadDriver};

/// Drive an upload to completion, returning the write windows, the committed
/// list (if a commit happened), and whether the single-shot path was taken.
fn drive(
    total_length: u64,
    block_size: Option<u64>,
) -> (Vec<(u64, u64, Vec<u8>)>, Option<Vec<Vec<u8>>>, bool) {
    let mut driver = BlockUploadDriver::new(total_length, block_size);
    let mut writes = Vec::new();
    let mut committed = None;
    let mut whole = false;
    loop {
        match driver.next_action() {
            BlockAction::PutWhole => whole = true,
            BlockAction::WriteBlock { offset, len, block_id } => {
                writes.push((offset, len, block_id));
            }
            BlockAction::CommitList { block_ids } => {
                assert!(committed.is_none());
                committed = Some(block_ids);
            }
            BlockAction::Finished => return (writes, committed, whole),
        }
    }
}

#[test]
fn no_block_size_takes_single_shot_path() {
    let (writes, committed, whole) = drive(12345, None);
    assert!(whole);
    assert!(writes.is_empty());
    assert!(committed.is_none());
}

#[test]
fn empty_file_with_block_size_commits_empty_list() {
    // A zero-length file with an explicit block size skips the single-shot
    // path, uploads no blocks, and still commits an (empty) block list.
    let (writes, committed, whole) = drive(0, Some(10));
    assert!(!whole);
    assert!(writes.is_empty());
    assert_eq!(committed, Some(Vec::new()));
}

#[test]
fn thousand_bytes_in_blocks_of_four_hundred() {
    let (writes, committed, whole) = drive(1000, Some(400));
    assert!(!whole);
    assert_eq!(writes.len(), 3);
    assert_eq!(writes[0], (0, 400, b"00000000".to_vec()));
    assert_eq!(writes[1], (400, 400, b"00000190".to_vec()));
    assert_eq!(writes[2], (800, 200, b"00000320".to_vec()));
    let committed = committed.expect("commit must happen");
    assert_eq!(
        committed,
        vec![b"00000000".to_vec(), b"00000190".to_vec(), b"00000320".to_vec()]
    );
}

#[test]
fn committed_list_matches_writes_in_length_and_order() {
    for (n, b) in [(1000u64, 400u64), (1000, 1000), (1000, 1024), (4096, 512), (1, 1), (7, 3)] {
        let (writes, committed, whole) = drive(n, Some(b));
        assert!(!whole);
        let committed = committed.expect("commit must happen");
        assert_eq!(committed.len(), writes.len());
        for (written, committed_id) in writes.iter().zip(committed.iter()) {
            assert_eq!(&written.2, committed_id);
        }
        // The windows partition [0, n) in ascending offset order.
        let mut expected_offset = 0;
        for (offset, len, _) in &writes {
            assert_eq!(*offset, expected_offset);
            assert!(*len > 0);
            expected_offset += len;
        }
        assert_eq!(expected_offset, n);
        // Exactly ceil(n / b) blocks.
        assert_eq!(writes.len() as u64, n.div_ceil(b));
    }
}

#[test]
fn very_large_block_source_walks_without_overflow() {
    let n = 1u64 << 40;
    let b = 1u64 << 30;
    let (writes, committed, whole) = drive(n, Some(b));
    assert!(!whole);
    assert_eq!(writes.len(), 1024);
    assert_eq!(writes[0].0, 0);
    assert_eq!(writes[1023], (1023 * b, b, b"FFC0000000".to_vec()));
    assert_eq!(committed.unwrap().len(), 1024);
}

#[test]
fn block_exactly_divides_length() {
    let (writes, committed, _) = drive(800, Some(400));
    assert_eq!(writes.len(), 2);
    assert_eq!(writes[1], (400, 400, b"00000190".to_vec()));
    assert_eq!(committed.unwrap().len(), 2);
}

#[test]
fn single_block_when_block_size_exceeds_length() {
    let (writes, committed, whole) = drive(5, Some(1000));
    assert!(!whole);
    assert_eq!(writes.len(), 1);
    assert_eq!(writes[0], (0, 5, b"00000000".to_vec()));
    assert_eq!(committed.unwrap(), vec![b"00000000".to_vec()]);
}
