//! The scan of a range: which numbers are tried, what becomes of each, and
//! the batches that a whole run flushes.

use crate::buffer::{
    batches_after, batches_of_run, lemma_run_keeps_every_item, pending_after, BoundedBuffer,
};
use crate::config::ConfigError;
use crate::powers::calculate_powers;
use crate::primality::{divides, is_prime, is_prime_number};
use crate::record::{record_of, PrimeRecord, RecordText};
use crate::wide::{decimal_text, Wide};
use vstd::prelude::*;

verus! {

/// The numbers that are worth a primality test: the odd ones, and 2.
pub open spec fn is_candidate(n: nat) -> bool {
    n % 2 == 1 || n == 2
}

/// The primes among the `count` numbers from `lo` on, ascending.
pub open spec fn primes_from(lo: nat, count: nat) -> Seq<nat>
    decreases count,
{
    if count == 0 {
        Seq::empty()
    } else {
        let head = primes_from(lo, (count - 1) as nat);
        let n = (lo + count - 1) as nat;
        if is_prime_number(n) {
            head.push(n)
        } else {
            head
        }
    }
}

/// What each of `records` holds.
pub open spec fn record_texts(records: Seq<PrimeRecord>) -> Seq<RecordText> {
    records.map_values(|r: PrimeRecord| r@)
}

/// The records that belong to `primes`.
pub open spec fn records_of(primes: Seq<nat>) -> Seq<RecordText> {
    primes.map_values(|p: nat| record_of(p))
}

/// The content of each of `batches`.
pub open spec fn batch_contents(batches: Seq<Vec<PrimeRecord>>) -> Seq<Seq<PrimeRecord>> {
    batches.map_values(|b: Vec<PrimeRecord>| b@)
}

/// The filter loses no prime: every prime is odd or 2.
pub proof fn lemma_prime_is_candidate(n: nat)
    requires
        is_prime_number(n),
    ensures
        is_candidate(n),
{
    if n != 2 && n % 2 == 0 {
        assert(divides(2, n));
    }
}

/// What became of one number of the range.
#[derive(Debug)]
pub enum Outcome {
    /// The number is not prime.
    NotPrime,
    /// The number is prime: its record.
    Found(PrimeRecord),
    /// The number is prime, but its powers could not be represented. No
    /// record is kept for it, and the scan goes on.
    NotRepresentable(u128),
}

/// The number as a candidate, or `None` for an even number other than 2.
pub fn candidate(n: u128) -> (big_n: Option<Wide>)
    ensures
        big_n is Some <==> is_candidate(n as nat),
        big_n is Some ==> big_n.unwrap()@ == n,
{
    let big_n = Wide::from_u128(n);
    let one = Wide::from_u128(1);
    let two = Wide::from_u128(2);
    if big_n.remainder(&two).same_value(&one) || big_n.same_value(&two) {
        Some(big_n)
    } else {
        None
    }
}

/// What becomes of the prime `n`, given what the power calculator said.
pub fn record_outcome(n: u128, powers: Option<(Wide, Wide, Wide)>) -> (outcome: Outcome)
    ensures
        match powers {
            Some(p) => outcome matches Outcome::Found(record) && record@ == (RecordText {
                prime: n as nat,
                squared: decimal_text(p.0@),
                cubed: decimal_text(p.1@),
                to_fourth_power: decimal_text(p.2@),
            }),
            None => outcome == Outcome::NotRepresentable(n),
        },
{
    match powers {
        Some((squared, cubed, to_fourth_power)) => Outcome::Found(
            PrimeRecord::new(n, &squared, &cubed, &to_fourth_power),
        ),
        None => Outcome::NotRepresentable(n),
    }
}

/// One unit of work: filter, primality test, powers, record.
pub fn evaluate(n: u128) -> (outcome: Outcome)
    ensures
        is_prime_number(n as nat) ==> (outcome matches Outcome::Found(record) && record@
            == record_of(n as nat)),
        !is_prime_number(n as nat) ==> outcome == Outcome::NotPrime,
{
    match candidate(n) {
        Some(big_n) => {
            if is_prime(&big_n) {
                record_outcome(n, calculate_powers(n))
            } else {
                Outcome::NotPrime
            }
        },
        None => {
            proof {
                if is_prime_number(n as nat) {
                    lemma_prime_is_candidate(n as nat);
                }
            }
            Outcome::NotPrime
        },
    }
}

/// Scans `start..=end` with one worker and a buffer of the given threshold.
/// The result is the batches in the order in which they were flushed, the
/// one of the final drain last.
///
/// Together the batches hold the record of each prime of the range, once
/// and ascending, cut exactly as the flush protocol cuts them.
pub fn scan_range(start: u128, end: u128, threshold: usize) -> (run: Result<
    Vec<Vec<PrimeRecord>>,
    ConfigError,
>)
    ensures
        start > end ==> run == Err::<Vec<Vec<PrimeRecord>>, ConfigError>(
            ConfigError::InvalidRange,
        ),
        start <= end ==> run is Ok && {
            let batches = batch_contents(run.unwrap()@);
            &&& record_texts(batches.flatten()) == records_of(
                primes_from(start as nat, (end - start + 1) as nat),
            )
            &&& batches.flatten().len() == primes_from(
                start as nat,
                (end - start + 1) as nat,
            ).len()
            &&& batches == batches_of_run(batches.flatten(), threshold as nat)
        },
{
    if start > end {
        return Err(ConfigError::InvalidRange);
    }
    let mut buffer = BoundedBuffer::new(threshold);
    let mut batches: Vec<Vec<PrimeRecord>> = Vec::new();
    let ghost mut items: Seq<PrimeRecord> = Seq::empty();
    let ghost mut tried: nat = 0;
    let mut n: u128 = start;
    let mut done = false;
    proof {
        assert(record_texts(items) =~= records_of(primes_from(start as nat, 0)));
        assert(batch_contents(batches@) =~= batches_after(items, threshold as nat));
    }
    while !done
        invariant
            start <= n <= end,
            tried == if done {
                end - start + 1
            } else {
                n - start
            },
            buffer.wf(),
            buffer.limit() == threshold,
            buffer.records() == pending_after(items, threshold as nat),
            batch_contents(batches@) == batches_after(items, threshold as nat),
            record_texts(items) == records_of(primes_from(start as nat, tried)),
        decreases end - n + (if done { 0int } else { 1int }),
    {
        let outcome = evaluate(n);
        proof {
            assert((start + (tried + 1) - 1) as nat == n as nat);
        }
        match outcome {
            Outcome::Found(record) => {
                let ghost before = items;
                proof {
                    items = items.push(record);
                    assert(items.drop_last() =~= before);
                    assert(items.last() == record);
                    assert(record_texts(items) =~= record_texts(before).push(record@));
                    assert(records_of(primes_from(start as nat, tried + 1)) =~= records_of(
                        primes_from(start as nat, tried),
                    ).push(record_of(n as nat)));
                }
                match buffer.append(record) {
                    Some(batch) => {
                        proof {
                            assert(batch_contents(batches@.push(batch)) =~= batch_contents(
                                batches@,
                            ).push(batch@));
                        }
                        batches.push(batch);
                    },
                    None => {},
                }
            },
            Outcome::NotPrime => {},
            Outcome::NotRepresentable(_) => {},
        }
        proof {
            tried = tried + 1;
        }
        if n == end {
            done = true;
        } else {
            n = n + 1;
        }
    }
    match buffer.drain() {
        Some(rest) => {
            proof {
                assert(batch_contents(batches@.push(rest)) =~= batch_contents(batches@).push(
                    rest@,
                ));
            }
            batches.push(rest);
        },
        None => {},
    }
    proof {
        lemma_run_keeps_every_item(items, threshold as nat);
    }
    Ok(batches)
}

} // verus!
