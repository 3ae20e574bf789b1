use ttlog_view::snapshots::{bounded_lz4_decompress, DecompressError, Snapshots, MAX_DECOMPRESSED_SIZE};

#[test]
fn rejects_oversized_decompressed_claim() {
    let one_gb: u32 = 1024 * 1024 * 1024;
    let mut payload = one_gb.to_le_bytes().to_vec();
    payload.extend_from_slice(&[0u8; 16]);

    let res = bounded_lz4_decompress(&payload);
    assert!(res.is_err(), "expected error for >256MB decompressed claim");
    let msg = res.unwrap_err().message();
    assert!(msg.contains("exceeds limit"), "expected limit-violation error, got: {}", msg);
}

#[test]
fn rejects_truncated_payload() {
    let payload = [0u8, 0u8, 0u8];
    let res = bounded_lz4_decompress(&payload);
    assert!(res.is_err());
}

#[test]
fn accepts_payload_within_bound() {
    let original = b"hello ttlog snapshot world".to_vec();
    let compressed =
        lz4::block::compress(&original, Some(lz4::block::CompressionMode::DEFAULT), true).expect("compress");
    let out = bounded_lz4_decompress(&compressed).expect("decompress should succeed");
    assert_eq!(out, original);
}

#[test]
fn bound_is_sane() {
    assert!(MAX_DECOMPRESSED_SIZE < u32::MAX as usize);
}

#[test]
fn limit_error_names_both_sizes() {
    let payload = (MAX_DECOMPRESSED_SIZE as u32 + 1).to_le_bytes().to_vec();
    match bounded_lz4_decompress(&payload) {
        Err(DecompressError::ExceedsLimit { claimed, limit }) => {
            assert_eq!(claimed, MAX_DECOMPRESSED_SIZE + 1);
            assert_eq!(limit, MAX_DECOMPRESSED_SIZE);
        },
        other => panic!("unexpected result {:?}", other),
    }
    let e = DecompressError::ExceedsLimit { claimed: 1073741824, limit: MAX_DECOMPRESSED_SIZE };
    assert_eq!(e.message(), "lz4 decompressed size 1073741824 exceeds limit 268435456");
}

#[test]
fn missing_prefix_message() {
    match bounded_lz4_decompress(&[1u8]) {
        Err(e) => {
            assert!(matches!(e, DecompressError::MissingSizePrefix));
            assert_eq!(e.message(), "lz4 payload missing size prefix");
        },
        Ok(_) => panic!("a one-byte payload has no size prefix"),
    }
}

#[test]
fn garbage_within_bound_is_an_lz4_error() {
    let mut payload = 100u32.to_le_bytes().to_vec();
    payload.extend_from_slice(&[0xFFu8; 8]);
    match bounded_lz4_decompress(&payload) {
        Err(DecompressError::Lz4(m)) => assert_eq!(m, "Decompression failed. Input invalid or too long?"),
        other => panic!("unexpected result {:?}", other),
    }
}

#[test]
fn exactly_the_bound_passes_the_check() {
    let mut payload = (MAX_DECOMPRESSED_SIZE as u32).to_le_bytes().to_vec();
    payload.extend_from_slice(&[0u8; 4]);
    match bounded_lz4_decompress(&payload) {
        Err(DecompressError::ExceedsLimit { .. }) => panic!("the bound itself is allowed"),
        _ => {},
    }
}

#[test]
fn snapshot_file_names() {
    assert!(Snapshots::is_snapshot_file("ttlog-1-20250101000000-panic.bin"));
    assert!(!Snapshots::is_snapshot_file("other.bin"));
    let (name, stamp) = Snapshots::entry_names("./tmp/ttlog-1580331-20251007215735-flush_and_exit.bin").unwrap();
    assert_eq!(name, "ttlog-1580331-20251007215735-flush_and_exit");
    assert_eq!(stamp, "20251007215735");
    assert!(Snapshots::entry_names("/elsewhere/ttlog-1-2-x.bin").is_none());
    assert!(Snapshots::entry_names("./tmp/ttlog-1.bin").is_none());
    assert!(Snapshots::entry_names("./tmp/ttlog-1-2-x.log").is_none());
}

#[test]
fn success_is_no_longer_than_the_prefix() {
    let data = b"abcabcabcabcabcabc ttlog".to_vec();
    let packed = lz4::block::compress(&data, None, true).unwrap();
    let out = bounded_lz4_decompress(&packed).unwrap();
    assert_eq!(out, data);
    assert!(out.len() <= u32::from_le_bytes([packed[0], packed[1], packed[2], packed[3]]) as usize);
}
