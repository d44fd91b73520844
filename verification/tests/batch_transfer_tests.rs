use perigee::address::Addr;
use perigee::batch_transfer::{BatchTransfer, Error, ExecutionMode, TransferFailure, MAX_BATCH_SIZE, MAX_CHUNKS};

fn recipients(n: usize) -> Vec<Addr> {
    (0..n).map(|i| Addr::new(format!("GRECIPIENT{}", i).into_bytes())).collect()
}

#[test]
fn partial_mode_skips_invalid_and_unaffordable_transfers() {
    let plan = BatchTransfer::quote(100, &recipients(4), &vec![60, 0, 50, 40], ExecutionMode::Partial).unwrap();
    let outcome: Vec<(bool, TransferFailure)> = plan.iter().map(|t| (t.success, t.failure)).collect();
    assert_eq!(
        outcome,
        vec![
            (true, TransferFailure::NoFailure),
            (false, TransferFailure::InvalidAmount),
            (false, TransferFailure::InsufficientBalance),
            (true, TransferFailure::NoFailure),
        ]
    );
    assert_eq!(plan[2].amount, 50);
}

#[test]
fn all_or_nothing_fails_on_the_first_bad_transfer() {
    assert!(matches!(
        BatchTransfer::quote(100, &recipients(2), &vec![10, -1], ExecutionMode::AllOrNothing),
        Err(Error::InvalidAmount)
    ));
    assert!(matches!(
        BatchTransfer::quote(100, &recipients(2), &vec![90, 20], ExecutionMode::AllOrNothing),
        Err(Error::InsufficientBalance)
    ));
    assert!(BatchTransfer::quote(100, &recipients(2), &vec![90, 10], ExecutionMode::AllOrNothing).is_ok());
}

#[test]
fn batch_shape_is_validated() {
    assert!(matches!(BatchTransfer::quote(1, &recipients(0), &vec![], ExecutionMode::Partial), Err(Error::EmptyBatch)));
    assert!(matches!(BatchTransfer::quote(1, &recipients(2), &vec![1], ExecutionMode::Partial), Err(Error::LengthMismatch)));
    let n = MAX_BATCH_SIZE as usize + 1;
    assert!(matches!(BatchTransfer::execute(1, &recipients(n), &vec![1; n], ExecutionMode::Partial), Err(Error::BatchTooLarge)));
    assert_eq!(BatchTransfer::max_batch_size(), 100);
    assert_eq!(BatchTransfer::check_lengths(&recipients(3), &vec![1, 2, 3]), Ok(3));
}

#[test]
fn chunks_cover_consecutive_windows() {
    let n = 250;
    let rs = recipients(n);
    let amounts = vec![1i128; n];
    let (s0, p0) = BatchTransfer::execute_chunked(1_000, &rs, &amounts, ExecutionMode::Partial, 0).unwrap();
    assert_eq!((s0.successful, s0.failed, s0.chunks_processed), (100, 0, 1));
    assert_eq!(p0.len(), 100);
    let (s2, p2) = BatchTransfer::execute_chunked(10, &rs, &amounts, ExecutionMode::Partial, 2).unwrap();
    assert_eq!(p2.len(), 50);
    assert_eq!((s2.successful, s2.failed), (10, 40));
    assert!(p2[0].recipient.same_as(&rs[200]));
    let (s3, p3) = BatchTransfer::execute_chunked(10, &rs, &amounts, ExecutionMode::Partial, 3).unwrap();
    assert_eq!((s3.successful, s3.failed, s3.chunks_processed), (0, 0, 0));
    assert_eq!(p3.len(), 0);
}

#[test]
fn chunk_indexes_from_max_chunks_on_are_refused() {
    let n = 1100;
    let rs = recipients(n);
    let amounts = vec![1i128; n];
    let (s9, p9) = BatchTransfer::execute_chunked(1_000, &rs, &amounts, ExecutionMode::Partial, MAX_CHUNKS - 1).unwrap();
    assert_eq!((s9.successful, s9.chunks_processed), (100, 1));
    assert!(p9[0].recipient.same_as(&rs[900]));
    assert!(matches!(
        BatchTransfer::execute_chunked(1_000, &rs, &amounts, ExecutionMode::Partial, MAX_CHUNKS),
        Err(Error::BatchTooLarge)
    ));
    assert!(matches!(
        BatchTransfer::execute_chunked(1_000, &rs, &amounts, ExecutionMode::Partial, u32::MAX),
        Err(Error::BatchTooLarge)
    ));
    // The list checks come first.
    assert!(matches!(
        BatchTransfer::execute_chunked(1_000, &rs, &vec![1i128; 3], ExecutionMode::Partial, MAX_CHUNKS),
        Err(Error::LengthMismatch)
    ));
}
