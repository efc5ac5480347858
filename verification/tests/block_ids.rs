use azure_storage_cli::block_id::block_id;

#[test]
fn renders_eight_upper_hex_digits() {
    assert_eq!(block_id(0), b"00000000".to_vec());
    assert_eq!(block_id(1), b"00000001".to_vec());
    assert_eq!(block_id(10), b"0000000A".to_vec());
    assert_eq!(block_id(26), b"0000001A".to_vec());
    assert_eq!(block_id(400), b"00000190".to_vec());
    assert_eq!(block_id(800), b"00000320".to_vec());
    assert_eq!(block_id(0xDEAD_BEEF), b"DEADBEEF".to_vec());
    assert_eq!(block_id(0xFFFF_FFFF), b"FFFFFFFF".to_vec());
}

#[test]
fn grows_past_eight_digits_for_huge_offsets() {
    assert_eq!(block_id(0x1_0000_0000), b"100000000".to_vec());
    assert_eq!(block_id(u64::MAX), b"FFFFFFFFFFFFFFFF".to_vec());
}

#[test]
fn distinct_offsets_get_distinct_ids() {
    let offsets = [0u64, 1, 400, 511, 512, 800, 0xFFFF_FFFF, 0x1_0000_0000];
    for (i, a) in offsets.iter().enumerate() {
        for (j, b) in offsets.iter().enumerate() {
            assert_eq!(i == j, block_id(*a) == block_id(*b));
        }
    }
}
