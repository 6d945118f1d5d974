//! The block gas limits that a block of transactions is run under when
//! parallel execution is compared with sequential execution.

use rand::Rng;
use vstd::prelude::*;

verus! {

/// `rand::thread_rng().gen_range(low, high)`: a number drawn from the thread's
/// random generator within `low..high` (rand panics when `low >= high`, which
/// `requires` leaves out). Which number is drawn is not stated.
#[verifier::external_body]
fn random_in_range(low: u64, high: u64) -> (n: u64)
    requires
        low < high,
    ensures
        low <= n < high,
{
    rand::thread_rng().gen_range(low, high)
}

/// The block gas limits to try, given `drawn`, the random limit: without a gas
/// limit, only "no limit"; with one, `drawn` and the limit zero.
pub fn gas_limit_variants_from(use_gas_limit: bool, drawn: u64) -> (limits: Vec<Option<u64>>)
    ensures
        limits@ == (if use_gas_limit {
            seq![Some(drawn), Some(0u64)]
        } else {
            seq![None::<u64>]
        }),
{
    if use_gas_limit {
        vec![Some(drawn), Some(0)]
    } else {
        vec![None]
    }
}

/// The block gas limits to try: without a gas limit, only "no limit"; with one,
/// a random limit below half the gas that `transaction_count` transactions of
/// at most `max_gas_per_txn` each can use, and the limit zero.
pub fn get_gas_limit_variants(
    use_gas_limit: bool,
    transaction_count: usize,
    max_gas_per_txn: u64,
) -> (limits: Vec<Option<u64>>)
    requires
        use_gas_limit ==> transaction_count * max_gas_per_txn <= u64::MAX,
        use_gas_limit ==> (transaction_count * max_gas_per_txn) / 2 > 0,
    ensures
        !use_gas_limit ==> limits@ == seq![None::<u64>],
        use_gas_limit ==> {
            &&& limits@.len() == 2
            &&& limits@[0] matches Some(g) && g < (transaction_count * max_gas_per_txn) / 2
            &&& limits@[1] == Some(0u64)
        },
{
    if use_gas_limit {
        let high = (transaction_count as u64) * max_gas_per_txn / 2;
        gas_limit_variants_from(true, random_in_range(0, high))
    } else {
        gas_limit_variants_from(false, 0)
    }
}

} // verus!
