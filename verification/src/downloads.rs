//! The downloads of a batch: which outcomes are selected for download,
//! and what the results of the downloads make of the batch. An entry comes
//! to be for a found outcome whose download returned bytes, and for no
//! other; a failed download is counted and marked on its outcome, and
//! stops nothing.

use vstd::prelude::*;
use crate::archive::{entry_file_name, file_name};
use crate::model::{
    entries_view, outcomes_view, text_view, ArchiveEntry, ArchiveEntryView, BookOutcome,
    BookOutcomeView, BookRequestView, DownloadError, DownloadErrorView, Status, StatusView,
};

verus! {

/// One download to attempt: the position of the matched outcome in the
/// batch, and its retrieval reference.
#[derive(Debug, PartialEq, Eq)]
pub struct DownloadJob {
    pub position: usize,
    pub reference: String,
}

pub struct DownloadJobView {
    pub position: int,
    pub reference: Seq<char>,
}

impl View for DownloadJob {
    type V = DownloadJobView;

    open spec fn view(&self) -> DownloadJobView {
        DownloadJobView { position: self.position as int, reference: self.reference@ }
    }
}

/// What one download came to: the bytes of the file, or why there are none.
pub type Fetched = Result<Vec<u8>, DownloadError>;

/// An outcome that is selected for download: found, with its reference.
pub open spec fn is_matched(outcome: BookOutcomeView) -> bool {
    outcome.status == StatusView::Found && outcome.retrieval_ref is Some
}

/// The downloads to attempt for the outcomes: one for each outcome that is
/// selected, in batch order, with its position and its reference.
pub open spec fn jobs_of(outcomes: Seq<BookOutcomeView>) -> Seq<DownloadJobView>
    decreases outcomes.len(),
{
    if outcomes.len() == 0 {
        seq![]
    } else {
        let front = jobs_of(outcomes.drop_last());
        if is_matched(outcomes.last()) {
            front.push(
                DownloadJobView {
                    position: outcomes.len() - 1,
                    reference: outcomes.last().retrieval_ref->0,
                },
            )
        } else {
            front
        }
    }
}

/// The views of a list of jobs, in order.
pub open spec fn jobs_view(jobs: Seq<DownloadJob>) -> Seq<DownloadJobView> {
    jobs.map_values(|job: DownloadJob| job@)
}

/// The positions that a list of jobs names, in order.
pub open spec fn job_positions(jobs: Seq<DownloadJobView>) -> Seq<int> {
    jobs.map_values(|job: DownloadJobView| job.position)
}

/// What one download came to, as the contracts speak of it.
pub open spec fn fetched_view(fetched: Fetched) -> Result<Seq<u8>, DownloadErrorView> {
    match fetched {
        Ok(bytes) => Ok(bytes@),
        Err(error) => Err(error@),
    }
}

/// The views of a list of download results, in order.
pub open spec fn results_view(results: Seq<Fetched>) -> Seq<Result<Seq<u8>, DownloadErrorView>> {
    results.map_values(|fetched: Fetched| fetched_view(fetched))
}

/// The entry of a downloaded book.
pub open spec fn entry_of(request: BookRequestView, bytes: Seq<u8>) -> ArchiveEntryView {
    ArchiveEntryView { file_name: file_name(request), payload: bytes }
}

/// The entries of a batch: one for each download that returned bytes, in
/// the order of the downloads, named after the request it answers.
pub open spec fn entries_of(
    outcomes: Seq<BookOutcomeView>,
    positions: Seq<int>,
    results: Seq<Result<Seq<u8>, DownloadErrorView>>,
) -> Seq<ArchiveEntryView>
    decreases positions.len(),
{
    if positions.len() == 0 || results.len() != positions.len() {
        seq![]
    } else {
        let front = entries_of(outcomes, positions.drop_last(), results.drop_last());
        match results.last() {
            Ok(bytes) => front.push(entry_of(outcomes[positions.last()].request, bytes)),
            Err(_) => front,
        }
    }
}

/// For each entry of `entries_of`, the position in the batch of the
/// outcome that it came from.
pub open spec fn entry_origins(
    positions: Seq<int>,
    results: Seq<Result<Seq<u8>, DownloadErrorView>>,
) -> Seq<int>
    decreases positions.len(),
{
    if positions.len() == 0 || results.len() != positions.len() {
        seq![]
    } else {
        let front = entry_origins(positions.drop_last(), results.drop_last());
        match results.last() {
            Ok(_) => front.push(positions.last()),
            Err(_) => front,
        }
    }
}

/// How many downloads returned no bytes.
pub open spec fn failed_downloads(results: Seq<Result<Seq<u8>, DownloadErrorView>>) -> nat
    decreases results.len(),
{
    if results.len() == 0 {
        0
    } else {
        failed_downloads(results.drop_last()) + if results.last() is Err {
            1nat
        } else {
            0nat
        }
    }
}

/// An outcome whose download failed: the request and the reference stay,
/// the status names the failure.
pub open spec fn with_failure(outcome: BookOutcomeView, error: DownloadErrorView) -> BookOutcomeView {
    BookOutcomeView {
        request: outcome.request,
        status: StatusView::DownloadError(error),
        retrieval_ref: outcome.retrieval_ref,
    }
}

/// The outcomes after the downloads: where a download failed, the outcome
/// at its position carries the failure; every other outcome is untouched.
pub open spec fn settled(
    outcomes: Seq<BookOutcomeView>,
    positions: Seq<int>,
    results: Seq<Result<Seq<u8>, DownloadErrorView>>,
) -> Seq<BookOutcomeView>
    decreases positions.len(),
{
    if positions.len() == 0 || results.len() != positions.len() {
        outcomes
    } else {
        let front = settled(outcomes, positions.drop_last(), results.drop_last());
        match results.last() {
            Ok(_) => front,
            Err(error) => front.update(
                positions.last(),
                with_failure(front[positions.last()], error),
            ),
        }
    }
}

/// The jobs of the outcomes name positions of the batch, each of an
/// outcome that is selected, with that outcome's reference; the positions
/// ascend, and no selected outcome is left out.
pub proof fn lemma_jobs_of(outcomes: Seq<BookOutcomeView>)
    ensures
        jobs_of(outcomes).len() <= outcomes.len(),
        forall|k: int|
            0 <= k < jobs_of(outcomes).len() ==> {
                &&& 0 <= (#[trigger] jobs_of(outcomes)[k]).position < outcomes.len()
                &&& is_matched(outcomes[jobs_of(outcomes)[k].position])
                &&& outcomes[jobs_of(outcomes)[k].position].retrieval_ref == Some(
                    jobs_of(outcomes)[k].reference,
                )
            },
        forall|j: int, k: int|
            0 <= j < k < jobs_of(outcomes).len() ==> (#[trigger] jobs_of(outcomes)[j]).position
                < (#[trigger] jobs_of(outcomes)[k]).position,
        forall|p: int|
            0 <= p < outcomes.len() && is_matched(#[trigger] outcomes[p]) ==> job_positions(
                jobs_of(outcomes),
            ).contains(p),
    decreases outcomes.len(),
{
    if outcomes.len() > 0 {
        let front = outcomes.drop_last();
        let all = jobs_of(outcomes);
        let fewer = jobs_of(front);
        lemma_jobs_of(front);
        assert forall|p: int| 0 <= p < outcomes.len() && is_matched(
            #[trigger] outcomes[p],
        ) implies job_positions(all).contains(p) by {
            if p < front.len() {
                assert(front[p] == outcomes[p]);
                let k = choose|k: int|
                    0 <= k < job_positions(fewer).len() && job_positions(fewer)[k] == p;
                assert(job_positions(all)[k] == p);
            } else {
                assert(job_positions(all)[all.len() - 1] == p);
            }
        }
    }
}

/// There are as many entries as origins, entries and failed downloads
/// together are the downloads, and each entry holds the name of the
/// request at its origin.
pub proof fn lemma_entries_have_origins(
    outcomes: Seq<BookOutcomeView>,
    positions: Seq<int>,
    results: Seq<Result<Seq<u8>, DownloadErrorView>>,
)
    requires
        results.len() == positions.len(),
    ensures
        entries_of(outcomes, positions, results).len() == entry_origins(positions, results).len(),
        entries_of(outcomes, positions, results).len() + failed_downloads(results)
            == results.len(),
        forall|e: int|
            0 <= e < entry_origins(positions, results).len() ==> (#[trigger] entries_of(
                outcomes,
                positions,
                results,
            )[e]).file_name == file_name(outcomes[entry_origins(positions, results)[e]].request),
    decreases positions.len(),
{
    if positions.len() > 0 {
        lemma_entries_have_origins(outcomes, positions.drop_last(), results.drop_last());
    }
}

/// An entry exists for a position of the batch if and only if the outcome
/// there is found and its download returned bytes.
pub proof fn lemma_entry_iff_found_and_fetched(
    outcomes: Seq<BookOutcomeView>,
    results: Seq<Result<Seq<u8>, DownloadErrorView>>,
    p: int,
)
    requires
        results.len() == jobs_of(outcomes).len(),
        0 <= p < outcomes.len(),
    ensures
        entry_origins(job_positions(jobs_of(outcomes)), results).contains(p) <==> (
        outcomes[p].status == StatusView::Found && exists|k: int|
            0 <= k < results.len() && (#[trigger] jobs_of(outcomes)[k]).position == p
                && results[k] is Ok),
{
    let jobs = jobs_of(outcomes);
    let positions = job_positions(jobs);
    lemma_jobs_of(outcomes);
    lemma_origins_are_fetched(positions, results, p);
}

proof fn lemma_origins_are_fetched(
    positions: Seq<int>,
    results: Seq<Result<Seq<u8>, DownloadErrorView>>,
    p: int,
)
    requires
        results.len() == positions.len(),
    ensures
        entry_origins(positions, results).contains(p) <==> exists|k: int|
            0 <= k < results.len() && #[trigger] positions[k] == p && results[k] is Ok,
    decreases positions.len(),
{
    if positions.len() > 0 {
        let front_p = positions.drop_last();
        let front_r = results.drop_last();
        let last = positions.len() - 1;
        lemma_origins_are_fetched(front_p, front_r, p);
        let origins = entry_origins(positions, results);
        let front_o = entry_origins(front_p, front_r);
        if origins.contains(p) {
            let e = choose|e: int| 0 <= e < origins.len() && origins[e] == p;
            assert(e < front_o.len() ==> front_o.contains(p));
        }
        if exists|k: int| 0 <= k < results.len() && #[trigger] positions[k] == p && results[k] is Ok {
            let k = choose|k: int|
                0 <= k < results.len() && #[trigger] positions[k] == p && results[k] is Ok;
            if k < last {
                assert(front_p[k] == p && front_r[k] is Ok);
                let e = choose|e: int| 0 <= e < front_o.len() && front_o[e] == p;
                assert(origins[e] == p);
            } else {
                assert(origins[origins.len() - 1] == p);
            }
        }
    }
}

/// Settling keeps the number of outcomes, and of each outcome the request
/// and the reference.
pub proof fn lemma_settled_keeps(
    outcomes: Seq<BookOutcomeView>,
    positions: Seq<int>,
    results: Seq<Result<Seq<u8>, DownloadErrorView>>,
)
    requires
        forall|k: int| 0 <= k < positions.len() ==> 0 <= #[trigger] positions[k] < outcomes.len(),
    ensures
        settled(outcomes, positions, results).len() == outcomes.len(),
        forall|p: int|
            0 <= p < outcomes.len() ==> {
                &&& (#[trigger] settled(outcomes, positions, results)[p]).request
                    == outcomes[p].request
                &&& settled(outcomes, positions, results)[p].retrieval_ref
                    == outcomes[p].retrieval_ref
            },
    decreases positions.len(),
{
    if positions.len() > 0 && results.len() == positions.len() {
        let front_p = positions.drop_last();
        lemma_settled_keeps(outcomes, front_p, results.drop_last());
    }
}

/// The outcome after its download: untouched where bytes came back, marked
/// with the failure where none did.
pub open spec fn outcome_after(
    outcome: BookOutcomeView,
    result: Result<Seq<u8>, DownloadErrorView>,
) -> BookOutcomeView {
    match result {
        Ok(_) => outcome,
        Err(error) => with_failure(outcome, error),
    }
}

/// Settling touches only the outcomes that were downloaded: the outcome
/// at the position of a job is what its result makes of it, and an outcome
/// at any other position is as it was.
pub proof fn lemma_settled_at(
    outcomes: Seq<BookOutcomeView>,
    results: Seq<Result<Seq<u8>, DownloadErrorView>>,
    p: int,
)
    requires
        results.len() == jobs_of(outcomes).len(),
        0 <= p < outcomes.len(),
    ensures
        forall|k: int|
            0 <= k < results.len() && (#[trigger] jobs_of(outcomes)[k]).position == p ==> settled(
                outcomes,
                job_positions(jobs_of(outcomes)),
                results,
            )[p] == outcome_after(outcomes[p], results[k]),
        !is_matched(outcomes[p]) ==> settled(
            outcomes,
            job_positions(jobs_of(outcomes)),
            results,
        )[p] == outcomes[p],
{
    let jobs = jobs_of(outcomes);
    let positions = job_positions(jobs);
    lemma_jobs_of(outcomes);
    lemma_settled_pointwise(outcomes, positions, results, p);
}

proof fn lemma_settled_pointwise(
    outcomes: Seq<BookOutcomeView>,
    positions: Seq<int>,
    results: Seq<Result<Seq<u8>, DownloadErrorView>>,
    p: int,
)
    requires
        results.len() == positions.len(),
        0 <= p < outcomes.len(),
        forall|k: int| 0 <= k < positions.len() ==> 0 <= #[trigger] positions[k] < outcomes.len(),
        forall|j: int, k: int|
            0 <= j < k < positions.len() ==> #[trigger] positions[j] < #[trigger] positions[k],
    ensures
        forall|k: int|
            0 <= k < positions.len() && #[trigger] positions[k] == p ==> settled(
                outcomes,
                positions,
                results,
            )[p] == outcome_after(outcomes[p], results[k]),
        (forall|k: int| 0 <= k < positions.len() ==> #[trigger] positions[k] != p) ==> settled(
            outcomes,
            positions,
            results,
        )[p] == outcomes[p],
    decreases positions.len(),
{
    if positions.len() > 0 {
        let last = positions.len() - 1;
        let front_p = positions.drop_last();
        let front_r = results.drop_last();
        lemma_settled_pointwise(outcomes, front_p, front_r, p);
        lemma_settled_keeps(outcomes, front_p, front_r);
        if positions[last] != p {
            assert forall|k: int| 0 <= k < positions.len() && #[trigger] positions[k]
                == p implies settled(outcomes, positions, results)[p] == outcome_after(
                outcomes[p],
                results[k],
            ) by {
                assert(front_p[k] == p);
            }
        }
    }
}

fn reversed<T>(list: Vec<T>) -> (stack: Vec<T>)
    ensures
        stack.len() == list.len(),
        forall|k: int| 0 <= k < stack.len() ==> #[trigger] stack@[k] == list@[list.len() - 1 - k],
{
    let ghost given = list@;
    let mut list = list;
    let mut stack: Vec<T> = Vec::new();
    while list.len() > 0
        invariant
            list.len() + stack.len() == given.len(),
            list@ == given.take(list.len() as int),
            forall|k: int|
                0 <= k < stack.len() ==> #[trigger] stack@[k] == given[given.len() - 1 - k],
        decreases list.len(),
    {
        let item = list.pop().unwrap();
        stack.push(item);
    }
    stack
}

fn copy_of(text: &Option<String>) -> (copy: Option<String>)
    ensures
        text_view(copy) == text_view(*text),
{
    match text {
        Some(t) => Some(t.clone()),
        None => None,
    }
}

/// The downloads to attempt for the outcomes: one for each that is found
/// and carries its reference, in batch order; every other outcome is left
/// as it is.
pub fn select_downloads(outcomes: &Vec<BookOutcome>) -> (jobs: Vec<DownloadJob>)
    ensures
        jobs_view(jobs@) == jobs_of(outcomes_view(outcomes@)),
{
    let ghost views = outcomes_view(outcomes@);
    let mut jobs: Vec<DownloadJob> = Vec::new();
    let mut i: usize = 0;
    while i < outcomes.len()
        invariant
            i <= outcomes.len(),
            views == outcomes_view(outcomes@),
            jobs_view(jobs@) == jobs_of(views.take(i as int)),
        decreases outcomes.len() - i,
    {
        let outcome = &outcomes[i];
        proof {
            assert(views.take(i + 1).drop_last() =~= views.take(i as int));
        }
        let found = match outcome.status {
            Status::Found => true,
            _ => false,
        };
        if found {
            match &outcome.retrieval_ref {
                Some(reference) => {
                    jobs.push(DownloadJob { position: i, reference: reference.clone() });
                },
                None => {},
            }
        }
        i += 1;
    }
    assert(views.take(i as int) =~= views);
    jobs
}

/// The batch after its downloads.
#[derive(Debug, PartialEq, Eq)]
pub struct Settlement {
    /// The outcomes of all requests, in batch order.
    pub outcomes: Vec<BookOutcome>,
    /// The entries to package, in the order of the downloads.
    pub entries: Vec<ArchiveEntry>,
    /// How many downloads returned no bytes.
    pub failed_downloads: usize,
}

/// Settles the downloads: `jobs` are the jobs of the outcomes, and
/// `results` holds one result per job, in the order of the jobs. Each
/// download that returned bytes becomes an entry, named after its request;
/// each that did not is counted, and its outcome carries the failure.
/// Every other outcome is untouched.
pub fn settle_downloads(
    outcomes: Vec<BookOutcome>,
    jobs: &Vec<DownloadJob>,
    results: Vec<Fetched>,
) -> (settlement: Settlement)
    requires
        jobs_view(jobs@) == jobs_of(outcomes_view(outcomes@)),
        results.len() == jobs.len(),
    ensures
        outcomes_view(settlement.outcomes@) == settled(
            outcomes_view(outcomes@),
            job_positions(jobs_view(jobs@)),
            results_view(results@),
        ),
        entries_view(settlement.entries@) == entries_of(
            outcomes_view(outcomes@),
            job_positions(jobs_view(jobs@)),
            results_view(results@),
        ),
        settlement.failed_downloads == failed_downloads(results_view(results@)),
        settlement.entries.len() + settlement.failed_downloads == results.len(),
{
    let ghost before = outcomes_view(outcomes@);
    let ghost positions = job_positions(jobs_view(jobs@));
    let ghost fetched = results_view(results@);
    let count = results.len();
    let mut outcomes = outcomes;
    let mut stack = reversed(results);
    let mut entries: Vec<ArchiveEntry> = Vec::new();
    let mut failed: usize = 0;
    let mut k: usize = 0;
    proof {
        lemma_jobs_of(before);
    }
    while k < count
        invariant
            k <= count,
            count == jobs.len(),
            count == fetched.len(),
            positions == job_positions(jobs_view(jobs@)),
            forall|j: int|
                0 <= j < positions.len() ==> 0 <= #[trigger] positions[j] < before.len(),
            stack.len() == count - k,
            forall|j: int|
                0 <= j < stack.len() ==> fetched_view(#[trigger] stack@[j]) == fetched[count
                    - 1 - j],
            outcomes.len() == before.len(),
            outcomes_view(outcomes@) == settled(
                before,
                positions.take(k as int),
                fetched.take(k as int),
            ),
            entries_view(entries@) == entries_of(
                before,
                positions.take(k as int),
                fetched.take(k as int),
            ),
            failed == failed_downloads(fetched.take(k as int)),
            entries.len() + failed == k,
        decreases count - k,
    {
        let item = stack.pop().unwrap();
        let position = jobs[k].position;
        proof {
            assert(positions[k as int] == position);
            assert(positions.take(k + 1).drop_last() =~= positions.take(k as int));
            assert(fetched.take(k + 1).drop_last() =~= fetched.take(k as int));
            lemma_settled_keeps(before, positions.take(k as int), fetched.take(k as int));
        }
        match item {
            Ok(bytes) => {
                let name = entry_file_name(&outcomes[position].request);
                entries.push(ArchiveEntry { file_name: name, payload: bytes });
            },
            Err(error) => {
                let updated = BookOutcome {
                    request: outcomes[position].request.duplicate(),
                    status: Status::DownloadError(error),
                    retrieval_ref: copy_of(&outcomes[position].retrieval_ref),
                };
                outcomes.set(position, updated);
                failed += 1;
            },
        }
        k += 1;
    }
    proof {
        assert(positions.take(k as int) =~= positions);
        assert(fetched.take(k as int) =~= fetched);
    }
    Settlement { outcomes, entries, failed_downloads: failed }
}

} // verus!
