//! The download stage's bookkeeping and failure policy.
//!
//! Content retrieval itself happens outside the library, one planned entry
//! at a time; each attempt's outcome is recorded here. Under the strict
//! policy the first failure asks the caller to abort; under the permissive
//! policy a failure only increments the tally and the run carries on, so
//! integrity problems stay visible in the final success/failure report.

use vstd::prelude::*;

use crate::scheme::{BackupError, RmkFile};

verus! {

/// The failures among a row of download outcomes; `true` is a success.
pub open spec fn count_failures(outcomes: Seq<bool>) -> nat
    decreases outcomes.len(),
{
    if outcomes.len() == 0 {
        0
    } else {
        (if outcomes[0] {
            0nat
        } else {
            1nat
        }) + count_failures(outcomes.drop_first())
    }
}

/// The successes among a row of download outcomes.
pub open spec fn count_successes(outcomes: Seq<bool>) -> nat
    decreases outcomes.len(),
{
    if outcomes.len() == 0 {
        0
    } else {
        (if outcomes[0] {
            1nat
        } else {
            0nat
        }) + count_successes(outcomes.drop_first())
    }
}

proof fn lemma_count_push(outcomes: Seq<bool>, b: bool)
    ensures
        count_failures(outcomes.push(b)) == count_failures(outcomes) + if b {
            0nat
        } else {
            1nat
        },
        count_successes(outcomes.push(b)) == count_successes(outcomes) + if b {
            1nat
        } else {
            0nat
        },
    decreases outcomes.len(),
{
    if outcomes.len() == 0 {
        assert(outcomes.push(b)[0] == b);
        assert(outcomes.push(b).drop_first() =~= Seq::<bool>::empty());
        assert(count_failures(outcomes.push(b)) == (if b {
            0nat
        } else {
            1nat
        }) + count_failures(Seq::<bool>::empty()));
        assert(count_successes(outcomes.push(b)) == (if b {
            1nat
        } else {
            0nat
        }) + count_successes(Seq::<bool>::empty()));
    } else {
        assert(outcomes.push(b)[0] == outcomes[0]);
        assert(outcomes.push(b).drop_first() =~= outcomes.drop_first().push(b));
        lemma_count_push(outcomes.drop_first(), b);
        assert(count_failures(outcomes.push(b)) == (if outcomes[0] {
            0nat
        } else {
            1nat
        }) + count_failures(outcomes.drop_first().push(b)));
        assert(count_successes(outcomes.push(b)) == (if outcomes[0] {
            1nat
        } else {
            0nat
        }) + count_successes(outcomes.drop_first().push(b)));
    }
}

/// Every outcome is either a success or a failure.
pub proof fn lemma_counts_partition(outcomes: Seq<bool>)
    ensures
        count_successes(outcomes) + count_failures(outcomes) == outcomes.len(),
    decreases outcomes.len(),
{
    if outcomes.len() > 0 {
        lemma_counts_partition(outcomes.drop_first());
    }
}

/// Permissive accounting: when exactly one of the attempted downloads
/// failed, the remaining attempts all count as successes; under the
/// permissive policy every attempt is made.
pub proof fn lemma_permissive_accounting(outcomes: Seq<bool>)
    requires
        count_failures(outcomes) == 1,
    ensures
        count_successes(outcomes) == outcomes.len() - 1,
{
    lemma_counts_partition(outcomes);
}

/// Running totals of the download stage: the files retrieved so far, the
/// number of failed attempts, and the recorded outcome of every attempt.
/// The success count is the number of files held.
pub struct DownloadTally {
    pub files: Vec<RmkFile>,
    pub failure: usize,
    pub history: Ghost<Seq<bool>>,
}

impl DownloadTally {
    /// The tally's counters agree with its outcome history.
    pub open spec fn wf(self) -> bool {
        &&& self.failure == count_failures(self.history@)
        &&& self.files@.len() == count_successes(self.history@)
    }

    /// An empty tally.
    pub fn new() -> (r: DownloadTally)
        ensures
            r.files@ == Seq::<RmkFile>::empty(),
            r.failure == 0,
            r.history@ == Seq::<bool>::empty(),
            r.wf(),
    {
        let r = DownloadTally { files: Vec::new(), failure: 0, history: Ghost(Seq::empty()) };
        proof {
            assert(r.files@ =~= Seq::<RmkFile>::empty());
        }
        r
    }

    /// Records one retrieved file.
    pub fn record_success(&mut self, id: String, name: String, bytes: Vec<u8>)
        requires
            old(self).wf(),
        ensures
            final(self).files@ == old(self).files@.push((id, name, bytes)),
            final(self).failure == old(self).failure,
            final(self).history@ == old(self).history@.push(true),
            final(self).wf(),
    {
        proof {
            lemma_count_push(self.history@, true);
        }
        self.files.push((id, name, bytes));
        self.history = Ghost(self.history@.push(true));
    }

    /// Records one failed attempt and says whether the caller must abort:
    /// only under the strict policy.
    pub fn record_failure(&mut self, udp_mode: bool) -> (abort: bool)
        requires
            old(self).wf(),
            old(self).failure < usize::MAX,
        ensures
            final(self).failure == old(self).failure + 1,
            final(self).files == old(self).files,
            final(self).history@ == old(self).history@.push(false),
            final(self).wf(),
            abort == !udp_mode,
    {
        proof {
            lemma_count_push(self.history@, false);
        }
        self.failure = self.failure + 1;
        self.history = Ghost(self.history@.push(false));
        !udp_mode
    }

    /// The number of successfully retrieved files.
    pub fn success_count(&self) -> (r: usize)
        ensures
            r == self.files@.len(),
    {
        self.files.len()
    }

    /// The number of failed attempts.
    pub fn failure_count(&self) -> (r: usize)
        ensures
            r == self.failure,
    {
        self.failure
    }

    /// The verdict on the whole batch: under the strict policy any failure
    /// makes the operation a failed one, even though partial results exist;
    /// a permissive run always completes.
    pub fn outcome(&self, udp_mode: bool) -> (r: Result<(), BackupError>)
        ensures
            r is Ok <==> (udp_mode || self.failure == 0),
            r is Err ==> r->Err_0 == BackupError::NetworkError,
    {
        if self.failure != 0 && !udp_mode {
            Err(BackupError::NetworkError)
        } else {
            Ok(())
        }
    }

    /// Hands the retrieved files over to the writer.
    pub fn into_files(self) -> (r: Vec<RmkFile>)
        ensures
            r == self.files,
    {
        self.files
    }
}

/// Permissive accounting, read off the tally itself: a tally whose history
/// holds exactly one failure holds one retrieved file for every other
/// attempt.
pub proof fn lemma_tally_permissive(t: DownloadTally)
    requires
        t.wf(),
        count_failures(t.history@) == 1,
    ensures
        t.files@.len() == t.history@.len() - 1,
        t.failure == 1,
{
    lemma_permissive_accounting(t.history@);
}

} // verus!
