//! Bookkeeping of one file transfer: the progress shown while bytes flow,
//! and the outcome once both sides of the pipe are done.

use vstd::prelude::*;
use crate::node::RemoteNode;
use vstd::arithmetic::div_mod::{lemma_div_by_multiple, lemma_div_is_ordered};

verus! {

/// The count shown after a sample of the bytes read, given the count shown
/// before it: the sample, raised to that count and capped at the total.
pub open spec fn next_shown(total: u64, shown: u64, sample: u64) -> u64 {
    if sample < shown {
        shown
    } else if sample > total {
        total
    } else {
        sample
    }
}

/// The counts shown after each of `samples`, in turn, from nothing shown.
pub open spec fn shown_counts(total: u64, samples: Seq<u64>) -> Seq<u64>
    decreases samples.len(),
{
    if samples.len() == 0 {
        Seq::empty()
    } else {
        let prev = shown_counts(total, samples.drop_last());
        let before: u64 = if prev.len() == 0 {
            0
        } else {
            prev.last()
        };
        prev.push(next_shown(total, before, samples.last()))
    }
}

/// Whatever the samples, the counts shown never go down and never exceed
/// the declared size.
pub proof fn lemma_shown_counts_monotonic(total: u64, samples: Seq<u64>)
    ensures
        shown_counts(total, samples).len() == samples.len(),
        forall|i: int, j: int|
            0 <= i <= j < samples.len() ==> shown_counts(total, samples)[i] <= shown_counts(
                total,
                samples,
            )[j],
        forall|i: int| 0 <= i < samples.len() ==> shown_counts(total, samples)[i] <= total,
    decreases samples.len(),
{
    if samples.len() > 0 {
        lemma_shown_counts_monotonic(total, samples.drop_last());
    }
}

/// The byte count shown for one transfer, bound to the file's declared
/// size.
///
/// The shown count never goes down and never exceeds the declared size.
pub struct Progress {
    total: u64,
    shown: u64,
}

impl Progress {
    #[verifier::type_invariant]
    spec fn inv(self) -> bool {
        self.shown <= self.total
    }

    /// The declared size of the file.
    pub closed spec fn spec_total(&self) -> u64 {
        self.total
    }

    /// The byte count currently shown.
    pub closed spec fn spec_shown(&self) -> u64 {
        self.shown
    }

    /// Progress of a transfer of `total` bytes that has not started.
    pub fn new(total: u64) -> (r: Progress)
        ensures
            r.spec_total() == total,
            r.spec_shown() == 0,
    {
        Progress { total, shown: 0 }
    }

    pub fn total(&self) -> (r: u64)
        ensures
            r == self.spec_total(),
    {
        self.total
    }

    pub fn shown(&self) -> (r: u64)
        ensures
            r == self.spec_shown(),
            r <= self.spec_total(),
    {
        proof {
            use_type_invariant(self);
        }
        self.shown
    }

    /// Takes a sample of the bytes read so far and returns the count to
    /// show: the sample, raised to the count already shown and capped at the
    /// declared size.
    pub fn record(&mut self, bytes_read: u64) -> (r: u64)
        ensures
            final(self).spec_total() == old(self).spec_total(),
            r == final(self).spec_shown(),
            r == next_shown(old(self).spec_total(), old(self).spec_shown(), bytes_read),
            old(self).spec_shown() <= r <= old(self).spec_total(),
    {
        proof {
            use_type_invariant(&*self);
        }
        if bytes_read > self.shown {
            if bytes_read > self.total {
                self.shown = self.total;
            } else {
                self.shown = bytes_read;
            }
        }
        self.shown
    }

    /// Marks the transfer as complete: the count shown is the declared size.
    pub fn finish(&mut self) -> (r: u64)
        ensures
            final(self).spec_total() == old(self).spec_total(),
            final(self).spec_shown() == old(self).spec_total(),
            r == old(self).spec_total(),
            old(self).spec_shown() <= r,
    {
        proof {
            use_type_invariant(&*self);
        }
        self.shown = self.total;
        self.total
    }

    /// The share of the declared size shown, in whole percent, rounded down;
    /// an empty file counts as complete.
    pub fn percent(&self) -> (r: u64)
        ensures
            self.spec_total() == 0 ==> r == 100,
            self.spec_total() > 0 ==> r as int == self.spec_shown() as int * 100
                / self.spec_total() as int,
            r <= 100,
    {
        proof {
            use_type_invariant(self);
        }
        if self.total == 0 {
            100
        } else {
            let num: u128 = (self.shown as u128) * 100;
            let den: u128 = self.total as u128;
            let p: u128 = num / den;
            proof {
                assert(num as int <= 100 * den as int) by (nonlinear_arith)
                    requires
                        num as int == self.shown as int * 100,
                        den as int == self.total as int,
                        self.shown <= self.total,
                ;
                lemma_div_is_ordered(num as int, 100 * den as int, den as int);
                lemma_div_by_multiple(100, den as int);
            }
            p as u64
        }
    }
}

/// Why a transfer failed.
pub enum TransferError {
    /// Creating or writing the local file failed.
    Io(String),
    /// The remote side failed while streaming the file.
    Remote(String),
}

/// The outcome of one transfer, once the remote producer has returned and
/// the local consumer has been joined: the producer's failure first, then
/// the consumer's.
pub fn transfer_outcome(producer: Result<(), String>, consumer: Result<(), String>) -> (r: Result<
    (),
    TransferError,
>)
    ensures
        producer matches Err(e) ==> r == Err::<(), TransferError>(TransferError::Remote(e)),
        producer is Ok ==> (consumer matches Err(e) ==> r == Err::<(), TransferError>(
            TransferError::Io(e),
        )),
        r is Ok <==> producer is Ok && consumer is Ok,
{
    match (producer, consumer) {
        (Err(e), _) => Err(TransferError::Remote(e)),
        (Ok(()), Err(e)) => Err(TransferError::Io(e)),
        (Ok(()), Ok(())) => Ok(()),
    }
}

/// Records the outcome of the transfer of `node`: on success its name joins
/// the files created so far; a failure ends the whole run with its error.
pub fn record_outcome(created: Vec<String>, node: &RemoteNode, outcome: Result<(), TransferError>) -> (r:
    Result<Vec<String>, TransferError>)
    ensures
        outcome is Ok ==> (r matches Ok(v) && v@ == created@.push(node.name)),
        outcome matches Err(e) ==> r == Err::<Vec<String>, TransferError>(e),
{
    match outcome {
        Ok(()) => {
            let mut created = created;
            created.push(node.name.clone());
            Ok(created)
        },
        Err(e) => Err(e),
    }
}

} // verus!
