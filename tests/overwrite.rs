use cryptowipe::overwrite::{scaled_fraction, OverwritePass, OVERWRITE_BLOCK_SIZE, PROGRESS_FULL};

#[test]
fn three_gib_in_one_mib_blocks_takes_3072_writes() {
    let size: u64 = 3_221_225_472;
    let mut pass = OverwritePass::new(size, 1_048_576);
    assert_eq!(pass.fraction(), 0);
    let mut previous = 0u32;
    let mut total: u64 = 0;
    while !pass.is_complete() {
        let n = pass.next_len();
        assert_eq!(n, 1_048_576);
        pass.record_block();
        total += n as u64;
        let f = pass.fraction();
        assert!(f >= previous);
        if pass.writes() == 1 {
            assert_eq!(f, 325);
        }
        if pass.writes() < 3072 {
            assert!(f < PROGRESS_FULL);
        }
        previous = f;
    }
    assert_eq!(pass.writes(), 3072);
    assert_eq!(total, size);
    assert_eq!(pass.bytes_written(), size);
    assert_eq!(pass.fraction(), PROGRESS_FULL);
}

#[test]
fn last_block_is_truncated() {
    let mut pass = OverwritePass::new(2 * 1_048_576 + 524_288, OVERWRITE_BLOCK_SIZE);
    let mut lens = Vec::new();
    while !pass.is_complete() {
        lens.push(pass.next_len());
        pass.record_block();
    }
    assert_eq!(lens, vec![1_048_576, 1_048_576, 524_288]);
    assert_eq!(pass.writes(), 3);
}

#[test]
fn exact_multiple_needs_no_partial_block() {
    let mut pass = OverwritePass::new(4096, 1024);
    while !pass.is_complete() {
        assert_eq!(pass.next_len(), 1024);
        pass.record_block();
    }
    assert_eq!(pass.writes(), 4);
}

#[test]
fn empty_device_needs_no_write() {
    let pass = OverwritePass::new(0, OVERWRITE_BLOCK_SIZE);
    assert!(pass.is_complete());
    assert_eq!(pass.writes(), 0);
    assert_eq!(pass.fraction(), PROGRESS_FULL);
}

#[test]
fn device_smaller_than_a_block_takes_one_write() {
    let mut pass = OverwritePass::new(10, OVERWRITE_BLOCK_SIZE);
    assert_eq!(pass.next_len(), 10);
    pass.record_block();
    assert!(pass.is_complete());
    assert_eq!(pass.writes(), 1);
}

#[test]
fn next_block_fills_the_buffer_with_fresh_bytes() {
    let pass = OverwritePass::new(3 * 1_048_576, OVERWRITE_BLOCK_SIZE);
    let mut buf = vec![0u8; OVERWRITE_BLOCK_SIZE];
    let n = pass.next_block(&mut buf);
    assert_eq!(n, OVERWRITE_BLOCK_SIZE);
    assert_eq!(buf.len(), OVERWRITE_BLOCK_SIZE);
    assert!(buf.iter().any(|&b| b != 0));
    let first = buf.clone();
    pass.next_block(&mut buf);
    assert_ne!(first, buf);
}

#[test]
fn scaled_fraction_rounds_down() {
    assert_eq!(scaled_fraction(1_000_000, 1, 3), 333_333);
    assert_eq!(scaled_fraction(500_000, 3072, 3072), 500_000);
    assert_eq!(scaled_fraction(1000, 7, 0), 1000);
    assert_eq!(scaled_fraction(1_000_000, u64::MAX - 1, u64::MAX), 999_999);
}
