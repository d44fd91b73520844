//! Batched token transfers from one sender to many recipients.
//!
//! A batch is first planned against the sender's balance (`quote`); the
//! contract layer then performs the transfers the plan marks as successful.
use vstd::prelude::*;
use crate::address::Addr;

verus! {

#[derive(Clone, Copy, Debug, PartialEq, Eq, Structural)]
pub enum Error {
    EmptyBatch,
    LengthMismatch,
    InvalidAmount,
    InsufficientBalance,
    /// Batch exceeds the maximum allowed size; split it into chunks.
    BatchTooLarge,
    /// A string or vec argument exceeded its maximum allowed length.
    InputTooLong,
}

/// Maximum number of recipients in a single `execute` call.
pub const MAX_BATCH_SIZE: u32 = 100;

/// Maximum number of chunks `execute_chunked` will process: chunk indexes
/// from `MAX_CHUNKS` on are refused.
pub const MAX_CHUNKS: u32 = 10;

#[derive(Clone, Copy, Debug, PartialEq, Eq, Structural)]
pub enum ExecutionMode {
    /// Any invalid transfer fails the whole batch.
    AllOrNothing,
    /// Invalid transfers are skipped and reported.
    Partial,
}

#[derive(Clone, Copy, Debug, PartialEq, Eq, Structural)]
pub enum TransferFailure {
    NoFailure,
    InvalidAmount,
    InsufficientBalance,
}

/// The planned outcome of one transfer.
#[derive(Debug)]
pub struct TransferResult {
    pub recipient: Addr,
    pub amount: i128,
    pub success: bool,
    pub failure: TransferFailure,
}

/// Aggregated summary returned by `execute_chunked`.
#[derive(Clone, Copy, Debug, PartialEq, Eq, Structural)]
pub struct ChunkedSummary {
    /// Number of successful transfers.
    pub successful: u32,
    /// Number of failed transfers.
    pub failed: u32,
    /// Number of chunks processed.
    pub chunks_processed: u32,
}

/// The contract's entry points.
pub struct BatchTransfer;

/// The outcome of the length checks on a batch.
pub open spec fn lengths_result(n_recipients: nat, n_amounts: nat) -> Result<u32, Error> {
    if n_recipients == 0 {
        Err(Error::EmptyBatch)
    } else if n_recipients != n_amounts {
        Err(Error::LengthMismatch)
    } else if n_recipients > 100 {
        Err(Error::BatchTooLarge)
    } else {
        Ok(n_recipients as u32)
    }
}

/// Plans transfers of `amounts` in order against `balance`: the per-transfer
/// failures (or the error that stops an all-or-nothing batch) and the balance
/// left for later transfers.
pub open spec fn run(balance: int, amounts: Seq<i128>, mode: ExecutionMode) -> (Result<
    Seq<TransferFailure>,
    Error,
>, int)
    decreases amounts.len(),
{
    if amounts.len() == 0 {
        (Ok(Seq::empty()), balance)
    } else {
        let (prev, rem) = run(balance, amounts.drop_last(), mode);
        let a = amounts.last();
        match prev {
            Err(e) => (Err(e), rem),
            Ok(fs) => if a <= 0 {
                if mode == ExecutionMode::AllOrNothing {
                    (Err(Error::InvalidAmount), rem)
                } else {
                    (Ok(fs.push(TransferFailure::InvalidAmount)), rem)
                }
            } else if rem < a {
                if mode == ExecutionMode::AllOrNothing {
                    (Err(Error::InsufficientBalance), rem)
                } else {
                    (Ok(fs.push(TransferFailure::InsufficientBalance)), rem)
                }
            } else {
                (Ok(fs.push(TransferFailure::NoFailure)), rem - a)
            },
        }
    }
}

/// Whether `plan` lists, for each recipient and amount in order, the planned
/// failure in `fs`.
pub open spec fn plan_matches(
    plan: Seq<TransferResult>,
    recipients: Seq<Addr>,
    amounts: Seq<i128>,
    fs: Seq<TransferFailure>,
) -> bool {
    &&& plan.len() == recipients.len()
    &&& plan.len() == fs.len()
    &&& forall|i: int|
        0 <= i < plan.len() ==> {
            &&& (#[trigger] plan[i]).recipient@ == recipients[i]@
            &&& plan[i].amount == amounts[i]
            &&& plan[i].failure == fs[i]
            &&& plan[i].success == (fs[i] == TransferFailure::NoFailure)
        }
}

/// The outcome of planning a batch against `balance`: the length checks, then
/// the sequential plan.
pub open spec fn simulate_spec(
    balance: int,
    recipients: Seq<Addr>,
    amounts: Seq<i128>,
    mode: ExecutionMode,
) -> Result<Seq<TransferFailure>, Error> {
    match lengths_result(recipients.len(), amounts.len()) {
        Err(e) => Err(e),
        Ok(_) => run(balance, amounts, mode).0,
    }
}

/// Sum of the amounts whose transfer is planned to succeed.
pub open spec fn success_total(amounts: Seq<i128>, fs: Seq<TransferFailure>) -> int
    decreases amounts.len(),
{
    if amounts.len() == 0 || fs.len() == 0 {
        0
    } else {
        success_total(amounts.drop_last(), fs.drop_last()) + if fs.last()
            == TransferFailure::NoFailure {
            amounts.last() as int
        } else {
            0
        }
    }
}

/// Number of planned successes.
pub open spec fn success_count(fs: Seq<TransferFailure>) -> nat
    decreases fs.len(),
{
    if fs.len() == 0 {
        0
    } else {
        success_count(fs.drop_last()) + if fs.last() == TransferFailure::NoFailure {
            1nat
        } else {
            0nat
        }
    }
}

/// Planning never overspends: the planned successes add up to the balance
/// used, which never exceeds a non-negative starting balance; a successful
/// all-or-nothing plan succeeds on every transfer; a partial plan never
/// fails and covers every transfer.
pub proof fn law_plan_within_balance(balance: int, amounts: Seq<i128>, mode: ExecutionMode)
    ensures
        run(balance, amounts, mode).0 matches Ok(fs) ==> {
            &&& fs.len() == amounts.len()
            &&& run(balance, amounts, mode).1 == balance - success_total(amounts, fs)
            &&& balance >= 0 ==> 0 <= run(balance, amounts, mode).1
            &&& balance >= 0 ==> success_total(amounts, fs) <= balance
            &&& mode == ExecutionMode::AllOrNothing ==> forall|i: int|
                0 <= i < fs.len() ==> fs[i] == TransferFailure::NoFailure
        },
        mode == ExecutionMode::Partial ==> run(balance, amounts, mode).0 is Ok,
    decreases amounts.len(),
{
    if amounts.len() > 0 {
        law_plan_within_balance(balance, amounts.drop_last(), mode);
        let (prev, rem) = run(balance, amounts.drop_last(), mode);
        if let Ok(fs0) = prev {
            if let Ok(fs) = run(balance, amounts, mode).0 {
                assert(fs.drop_last() =~= fs0);
                assert(amounts.drop_last().len() == fs0.len());
            }
        }
    }
}

proof fn lemma_run_err_persists(balance: int, s: Seq<i128>, n: int, mode: ExecutionMode)
    requires
        0 <= n <= s.len(),
        run(balance, s.take(n), mode).0 is Err,
    ensures
        run(balance, s, mode).0 == run(balance, s.take(n), mode).0,
    decreases s.len(),
{
    if n == s.len() {
        assert(s.take(n) =~= s);
    } else {
        assert(s.drop_last().take(n) =~= s.take(n));
        lemma_run_err_persists(balance, s.drop_last(), n, mode);
    }
}

proof fn lemma_run_rem_le(balance: int, amounts: Seq<i128>, mode: ExecutionMode)
    ensures
        run(balance, amounts, mode).1 <= balance,
    decreases amounts.len(),
{
    if amounts.len() > 0 {
        lemma_run_rem_le(balance, amounts.drop_last(), mode);
    }
}

/// The length checks of a batch.
fn validate_lengths(recipients: &Vec<Addr>, amounts: &Vec<i128>) -> (r: Result<u32, Error>)
    ensures
        r == lengths_result(recipients@.len(), amounts@.len()),
{
    let len = recipients.len();
    if len == 0 {
        return Err(Error::EmptyBatch);
    }
    if len != amounts.len() {
        return Err(Error::LengthMismatch);
    }
    if len > MAX_BATCH_SIZE as usize {
        return Err(Error::BatchTooLarge);
    }
    Ok(len as u32)
}

/// Plans a batch against `balance`, the sender's balance at planning time.
fn simulate_batch(
    balance: i128,
    recipients: &Vec<Addr>,
    amounts: &Vec<i128>,
    mode: ExecutionMode,
) -> (r: Result<Vec<TransferResult>, Error>)
    ensures
        match (r, simulate_spec(balance as int, recipients@, amounts@, mode)) {
            (Ok(plan), Ok(fs)) => plan_matches(plan@, recipients@, amounts@, fs),
            (Err(e), Err(f)) => e == f,
            _ => false,
        },
{
    let len = match validate_lengths(recipients, amounts) {
        Ok(l) => l,
        Err(e) => return Err(e),
    };
    let mut remaining_balance = balance;
    let mut results: Vec<TransferResult> = Vec::new();
    let ghost mut fs: Seq<TransferFailure> = Seq::empty();
    let mut i: u32 = 0;
    while i < len
        invariant
            len as int == recipients@.len(),
            len as int == amounts@.len(),
            lengths_result(recipients@.len(), amounts@.len()) == Ok::<u32, Error>(len),
            i <= len,
            run(balance as int, amounts@.take(i as int), mode) == (
                Ok::<Seq<TransferFailure>, Error>(fs),
                remaining_balance as int,
            ),
            plan_matches(results@, recipients@.take(i as int), amounts@.take(i as int), fs),
            remaining_balance <= balance,
        decreases len - i,
    {
        let recipient = recipients[i as usize].duplicate();
        let amount = amounts[i as usize];
        proof {
            assert(amounts@.take(i + 1).drop_last() =~= amounts@.take(i as int));
            assert(amounts@.take(i + 1).last() == amount);
        }
        let failure;
        if amount <= 0 {
            if mode == ExecutionMode::AllOrNothing {
                proof {
                    lemma_run_err_persists(balance as int, amounts@, i + 1, mode);
                }
                return Err(Error::InvalidAmount);
            }
            failure = TransferFailure::InvalidAmount;
        } else if remaining_balance < amount {
            if mode == ExecutionMode::AllOrNothing {
                proof {
                    lemma_run_err_persists(balance as int, amounts@, i + 1, mode);
                }
                return Err(Error::InsufficientBalance);
            }
            failure = TransferFailure::InsufficientBalance;
        } else {
            remaining_balance = remaining_balance - amount;
            failure = TransferFailure::NoFailure;
        }
        let ghost old_results = results@;
        results.push(
            TransferResult {
                recipient,
                amount,
                success: failure == TransferFailure::NoFailure,
                failure,
            },
        );
        proof {
            fs = fs.push(failure);
            assert forall|k: int| 0 <= k < results@.len() implies {
                &&& (#[trigger] results@[k]).recipient@ == recipients@.take(i + 1)[k]@
                &&& results@[k].amount == amounts@.take(i + 1)[k]
                &&& results@[k].failure == fs[k]
                &&& results@[k].success == (fs[k] == TransferFailure::NoFailure)
            } by {
                if k < i {
                    assert(results@[k] == old_results[k]);
                    assert(recipients@.take(i + 1)[k] == recipients@.take(i as int)[k]);
                    assert(amounts@.take(i + 1)[k] == amounts@.take(i as int)[k]);
                }
            }
        }
        i = i + 1;
    }
    proof {
        assert(amounts@.take(len as int) =~= amounts@);
        assert(recipients@.take(len as int) =~= recipients@);
    }
    Ok(results)
}

/// Copies `v[start..end]`.
fn slice_addrs(v: &Vec<Addr>, start: usize, end: usize) -> (r: Vec<Addr>)
    requires
        start <= end <= v@.len(),
    ensures
        r@.len() == end - start,
        forall|i: int| 0 <= i < r@.len() ==> (#[trigger] r@[i])@ == v@[start + i]@,
{
    let mut r: Vec<Addr> = Vec::new();
    let mut i = start;
    while i < end
        invariant
            start <= i <= end,
            end <= v@.len(),
            r@.len() == i - start,
            forall|k: int| 0 <= k < r@.len() ==> (#[trigger] r@[k])@ == v@[start + k]@,
        decreases end - i,
    {
        r.push(v[i].duplicate());
        i = i + 1;
    }
    r
}

/// Copies `v[start..end]`.
fn slice_amounts(v: &Vec<i128>, start: usize, end: usize) -> (r: Vec<i128>)
    requires
        start <= end <= v@.len(),
    ensures
        r@ == v@.subrange(start as int, end as int),
{
    let mut r: Vec<i128> = Vec::new();
    let mut i = start;
    while i < end
        invariant
            start <= i <= end,
            end <= v@.len(),
            r@ == v@.subrange(start as int, i as int),
        decreases end - i,
    {
        r.push(v[i]);
        i = i + 1;
        assert(r@ =~= v@.subrange(start as int, i as int));
    }
    r
}

/// Whether two address lists hold the same addresses in the same order.
pub open spec fn same_addrs(a: Seq<Addr>, b: Seq<Addr>) -> bool {
    a.len() == b.len() && forall|i: int| 0 <= i < a.len() ==> (#[trigger] a[i])@ == b[i]@
}

impl BatchTransfer {
    /// Plans a batch of at most `MAX_BATCH_SIZE` transfers against the
    /// sender's `balance`; the transfers marked successful are then made.
    /// A batch over the size limit fails with `BatchTooLarge` before any
    /// other check.
    pub fn execute(
        balance: i128,
        recipients: &Vec<Addr>,
        amounts: &Vec<i128>,
        mode: ExecutionMode,
    ) -> (r: Result<Vec<TransferResult>, Error>)
        ensures
            recipients@.len() > 100 ==> (r matches Err(e) && e == Error::BatchTooLarge),
            recipients@.len() <= 100 ==> match (
                r,
                simulate_spec(balance as int, recipients@, amounts@, mode),
            ) {
                (Ok(plan), Ok(fs)) => plan_matches(plan@, recipients@, amounts@, fs),
                (Err(e), Err(f)) => e == f,
                _ => false,
            },
    {
        if recipients.len() > MAX_BATCH_SIZE as usize {
            return Err(Error::BatchTooLarge);
        }
        simulate_batch(balance, recipients, amounts, mode)
    }

    /// Plans chunk `chunk_index` (recipients `chunk_index * MAX_BATCH_SIZE`
    /// onwards, at most `MAX_BATCH_SIZE` of them) of a large batch against the
    /// sender's `balance`, returning the summary and the plan of the chunk's
    /// transfers. After the checks on the lists, a chunk index of
    /// `MAX_CHUNKS` or more fails with `BatchTooLarge`; a chunk past the end
    /// yields an empty summary and plan.
    pub fn execute_chunked(
        balance: i128,
        recipients: &Vec<Addr>,
        amounts: &Vec<i128>,
        mode: ExecutionMode,
        chunk_index: u32,
    ) -> (r: Result<(ChunkedSummary, Vec<TransferResult>), Error>)
        ensures
            recipients@.len() == 0 ==> (r matches Err(e) && e == Error::EmptyBatch),
            recipients@.len() != 0 && recipients@.len() != amounts@.len() ==> (r matches Err(e)
                && e == Error::LengthMismatch),
            recipients@.len() != 0 && recipients@.len() == amounts@.len() && chunk_index >= 10
                ==> (r matches Err(e) && e == Error::BatchTooLarge),
            recipients@.len() != 0 && recipients@.len() == amounts@.len() && chunk_index < 10
                && chunk_index * 100 >= recipients@.len() ==> (r matches Ok((s, plan)) && s == (ChunkedSummary {
                successful: 0,
                failed: 0,
                chunks_processed: 0,
            }) && plan@.len() == 0),
            recipients@.len() != 0 && recipients@.len() == amounts@.len() && chunk_index < 10
                && chunk_index * 100 < recipients@.len() ==> {
                let start = chunk_index * 100;
                let end = if start + 100 < recipients@.len() {
                    start + 100
                } else {
                    recipients@.len() as int
                };
                let chunk_amounts = amounts@.subrange(start, end);
                match (r, run(balance as int, chunk_amounts, mode).0) {
                    (Ok((s, plan)), Ok(fs)) => {
                        &&& plan_matches(
                            plan@,
                            recipients@.subrange(start, end),
                            chunk_amounts,
                            fs,
                        )
                        &&& s.successful == success_count(fs)
                        &&& s.failed == fs.len() - success_count(fs)
                        &&& s.chunks_processed == 1
                    },
                    (Err(e), Err(f)) => e == f,
                    _ => false,
                }
            },
    {
        let total = recipients.len();
        if total == 0 {
            return Err(Error::EmptyBatch);
        }
        if total != amounts.len() {
            return Err(Error::LengthMismatch);
        }
        if chunk_index >= MAX_CHUNKS {
            return Err(Error::BatchTooLarge);
        }
        let start = chunk_index * MAX_BATCH_SIZE;
        if start as usize >= total {
            return Ok((ChunkedSummary { successful: 0, failed: 0, chunks_processed: 0 }, Vec::new()));
        }
        let end_u = start + MAX_BATCH_SIZE;
        let end: usize = if (end_u as usize) < total {
            end_u as usize
        } else {
            total
        };
        let chunk_recipients = slice_addrs(recipients, start as usize, end);
        let chunk_amounts = slice_amounts(amounts, start as usize, end);
        let plan = match simulate_batch(balance, &chunk_recipients, &chunk_amounts, mode) {
            Ok(p) => p,
            Err(e) => return Err(e),
        };
        let ghost fs = run(balance as int, chunk_amounts@, mode).0->Ok_0;
        let mut successful: u32 = 0;
        let mut failed: u32 = 0;
        let mut i: usize = 0;
        while i < plan.len()
            invariant
                plan_matches(plan@, chunk_recipients@, chunk_amounts@, fs),
                i <= plan@.len(),
                plan@.len() <= 100,
                successful == success_count(fs.take(i as int)),
                failed == i - success_count(fs.take(i as int)),
                success_count(fs.take(i as int)) <= i,
            decreases plan@.len() - i,
        {
            proof {
                assert(fs.take(i + 1).drop_last() =~= fs.take(i as int));
                assert(fs.take(i + 1).last() == fs[i as int]);
            }
            if plan[i].success {
                successful = successful + 1;
            } else {
                failed = failed + 1;
            }
            i = i + 1;
        }
        proof {
            assert(fs.take(plan@.len() as int) =~= fs);
            assert(same_addrs(chunk_recipients@, recipients@.subrange(start as int, end as int)));
            assert forall|k: int| 0 <= k < plan@.len() implies (#[trigger] plan@[k]).recipient@
                == recipients@.subrange(start as int, end as int)[k]@ by {
                assert(plan@[k].recipient@ == chunk_recipients@[k]@);
            }
        }
        Ok((ChunkedSummary { successful, failed, chunks_processed: 1 }, plan))
    }

    /// Plans a batch against the sender's `balance` without executing it.
    pub fn quote(
        balance: i128,
        recipients: &Vec<Addr>,
        amounts: &Vec<i128>,
        mode: ExecutionMode,
    ) -> (r: Result<Vec<TransferResult>, Error>)
        ensures
            match (r, simulate_spec(balance as int, recipients@, amounts@, mode)) {
                (Ok(plan), Ok(fs)) => plan_matches(plan@, recipients@, amounts@, fs),
                (Err(e), Err(f)) => e == f,
                _ => false,
            },
    {
        simulate_batch(balance, recipients, amounts, mode)
    }

    /// The maximum number of recipients per `execute` call.
    pub fn max_batch_size() -> (r: u32)
        ensures
            r == 100,
    {
        MAX_BATCH_SIZE
    }

    /// The length checks that come before the sender's balance is read.
    pub fn check_lengths(recipients: &Vec<Addr>, amounts: &Vec<i128>) -> (r: Result<u32, Error>)
        ensures
            r == lengths_result(recipients@.len(), amounts@.len()),
    {
        validate_lengths(recipients, amounts)
    }
}

} // verus!
