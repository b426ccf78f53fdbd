//! The coordinator: the batch as a sequence of phases. Each phase is a
//! value; the caller does the work between two phases (the search calls,
//! the save prompt, the downloads) and hands over what came back, one item
//! per item asked for and in the order asked for. No phase waits on
//! another batch item, none is entered twice, and every path ends in a
//! report or a batch error.

use vstd::prelude::*;
use crate::archive::{
    container_closes, container_image, count_stored, fates_obey, lemma_stored_count_bound,
    owed_fates, pack, stored_count, stored_members, EntryFate, Packed,
};
use crate::downloads::{
    entries_of, failed_downloads, job_positions, jobs_of, jobs_view, results_view,
    select_downloads, settle_downloads, settled, DownloadJob, DownloadJobView, Fetched,
};
use crate::model::{
    entries_view, outcomes_view, requests_view, text_view, ArchiveEntry, ArchiveEntryView,
    BookOutcome, BookOutcomeView, BookRequest, BookRequestView, CredentialPart, HttpCall,
};
use crate::report::{
    not_found, outcomes_not_found, BatchError, BatchErrorView, Report, ReportView,
};
use crate::searcher::{
    conclude_search, plan_search, search_call, search_outcome, SearchReply, SearchReplyView,
};
use crate::transport::rejected_credential;

verus! {

/// The first phase: the batch was admitted and its searches are to be
/// made. Its key is never empty and it holds at least one request.
#[derive(Debug, PartialEq, Eq)]
pub struct SearchPhase {
    api_key: String,
    api_host: String,
    requests: Vec<BookRequest>,
}

pub struct SearchPhaseView {
    pub api_key: Seq<char>,
    pub api_host: Seq<char>,
    pub requests: Seq<BookRequestView>,
}

/// The second phase: something was matched and the user is to be asked
/// where to save. Its jobs are always those of its outcomes.
#[derive(Debug, PartialEq, Eq)]
pub struct SavePhase {
    api_key: String,
    api_host: String,
    outcomes: Vec<BookOutcome>,
    jobs: Vec<DownloadJob>,
}

pub struct SavePhaseView {
    pub api_key: Seq<char>,
    pub api_host: Seq<char>,
    pub outcomes: Seq<BookOutcomeView>,
    pub jobs: Seq<DownloadJobView>,
}

/// The third phase: a destination was chosen and the downloads are to be
/// made. Its jobs are always those of its outcomes.
#[derive(Debug, PartialEq, Eq)]
pub struct DownloadPhase {
    api_key: String,
    api_host: String,
    outcomes: Vec<BookOutcome>,
    jobs: Vec<DownloadJob>,
    destination: String,
}

pub struct DownloadPhaseView {
    pub api_key: Seq<char>,
    pub api_host: Seq<char>,
    pub outcomes: Seq<BookOutcomeView>,
    pub jobs: Seq<DownloadJobView>,
    pub destination: Seq<char>,
}

/// The fourth phase: the downloads are settled and the entries are to be
/// packaged. Entries and failed downloads together are the downloads that
/// were attempted.
#[derive(Debug, PartialEq, Eq)]
pub struct ArchivePhase {
    destination: String,
    outcomes: Vec<BookOutcome>,
    entries: Vec<ArchiveEntry>,
    failed_downloads: usize,
}

pub struct ArchivePhaseView {
    pub destination: Seq<char>,
    pub outcomes: Seq<BookOutcomeView>,
    pub entries: Seq<ArchiveEntryView>,
    pub failed_downloads: nat,
}

/// What follows the search phase.
#[derive(Debug, PartialEq, Eq)]
pub enum AfterSearch {
    /// Nothing was matched: the batch is over.
    Finished(Report),
    /// Something was matched: ask where to save.
    AskDestination(SavePhase),
}

/// What follows the save prompt.
#[derive(Debug, PartialEq, Eq)]
pub enum AfterPrompt {
    /// The user declined: the batch is over.
    Finished(Report),
    /// A destination was chosen: download.
    Download(DownloadPhase),
}

/// The end of a batch that was packaged.
#[derive(Debug, PartialEq, Eq)]
pub struct Delivery {
    /// The bytes of the container, to be written to the destination.
    pub archive: Vec<u8>,
    pub report: Report,
    /// The outcomes of all requests, in batch order.
    pub outcomes: Vec<BookOutcome>,
    /// What became of each entry, in order.
    pub fates: Vec<EntryFate>,
}

/// Why a batch is not admitted, if it is not: a missing key, an empty key,
/// an empty batch, looked at in this order.
pub open spec fn admission(key: Option<Seq<char>>, batch_size: nat) -> Option<BatchErrorView> {
    match key {
        None => Some(BatchErrorView::MissingKey),
        Some(text) => if text.len() == 0 {
            Some(BatchErrorView::EmptyKey)
        } else if batch_size == 0 {
            Some(BatchErrorView::EmptyBatch)
        } else {
            None
        },
    }
}

/// The outcomes of a batch, given what came back from its searches: one
/// per request, in the order of the requests.
pub open spec fn search_outcomes(
    host: Seq<char>,
    requests: Seq<BookRequestView>,
    replies: Seq<SearchReplyView>,
) -> Seq<BookOutcomeView> {
    Seq::new(requests.len(), |i: int| search_outcome(host, requests[i], replies[i]))
}

/// There is one outcome per request, and the outcome at each position
/// answers the request at that position.
pub proof fn lemma_one_outcome_per_request(
    host: Seq<char>,
    requests: Seq<BookRequestView>,
    replies: Seq<SearchReplyView>,
)
    ensures
        search_outcomes(host, requests, replies).len() == requests.len(),
        forall|i: int|
            0 <= i < requests.len() ==> (#[trigger] search_outcomes(host, requests, replies)[i]).request
                == requests[i],
{
}

/// Admits a batch. A batch without a key, with an empty key or without a
/// request is refused, in this order, before any call is planned.
pub fn start(api_key: Option<String>, api_host: String, requests: Vec<BookRequest>) -> (started:
    Result<SearchPhase, BatchError>)
    ensures
        match admission(text_view(api_key), requests.len() as nat) {
            Some(error) => started matches Err(e) && e@ == error,
            None => started matches Ok(phase) && phase@ == (SearchPhaseView {
                api_key: text_view(api_key)->0,
                api_host: api_host@,
                requests: requests_view(requests@),
            }),
        },
{
    match api_key {
        None => Err(BatchError::MissingKey),
        Some(key) => {
            if key.as_str().is_empty() {
                Err(BatchError::EmptyKey)
            } else if requests.len() == 0 {
                Err(BatchError::EmptyBatch)
            } else {
                Ok(SearchPhase { api_key: key, api_host, requests })
            }
        },
    }
}

/// The views of a list of search replies, in order.
pub open spec fn replies_view(replies: Seq<SearchReply>) -> Seq<SearchReplyView> {
    replies.map_values(|reply: SearchReply| reply@)
}

/// The outcomes of the requests, given the reply to each: one outcome per
/// request, in the order of the requests.
pub fn collect_outcomes(
    api_host: &str,
    requests: &Vec<BookRequest>,
    replies: &Vec<SearchReply>,
) -> (outcomes: Vec<BookOutcome>)
    requires
        replies.len() == requests.len(),
    ensures
        outcomes.len() == requests.len(),
        forall|i: int| 0 <= i < outcomes.len() ==> (#[trigger] outcomes@[i])@.request == requests@[i]@,
        outcomes_view(outcomes@) == search_outcomes(
            api_host@,
            requests_view(requests@),
            replies_view(replies@),
        ),
{
    let mut outcomes: Vec<BookOutcome> = Vec::new();
    let mut i: usize = 0;
    while i < requests.len()
        invariant
            i <= requests.len(),
            replies.len() == requests.len(),
            outcomes.len() == i,
            forall|j: int|
                0 <= j < i ==> (#[trigger] outcomes@[j])@ == search_outcome(
                    api_host@,
                    requests@[j]@,
                    replies@[j]@,
                ),
        decreases requests.len() - i,
    {
        let outcome = conclude_search(api_host, requests[i].duplicate(), &replies[i]);
        outcomes.push(outcome);
        i += 1;
    }
    outcomes
}

impl View for SearchPhase {
    type V = SearchPhaseView;

    closed spec fn view(&self) -> SearchPhaseView {
        SearchPhaseView {
            api_key: self.api_key@,
            api_host: self.api_host@,
            requests: requests_view(self.requests@),
        }
    }
}

impl SearchPhase {
    #[verifier::type_invariant]
    spec fn admitted(&self) -> bool {
        self.api_key@.len() > 0 && self.requests.len() > 0
    }

    /// The key under which the searches are made: it is not empty.
    pub fn api_key(&self) -> (key: &str)
        ensures
            key@ == self@.api_key,
            key@.len() > 0,
    {
        proof {
            use_type_invariant(self);
        }
        self.api_key.as_str()
    }

    /// The host at which the searches are made.
    pub fn api_host(&self) -> (host: &str)
        ensures
            host@ == self@.api_host,
    {
        self.api_host.as_str()
    }

    /// The requests of the batch, in order: there is at least one.
    pub fn requests(&self) -> (requests: &Vec<BookRequest>)
        ensures
            requests_view(requests@) == self@.requests,
            requests.len() > 0,
    {
        proof {
            use_type_invariant(self);
        }
        &self.requests
    }

    /// The search calls of the batch: one plan per request, in order. Where
    /// a credential value does not encode as a header value, every plan is
    /// the error that names it, and no call is to be made.
    pub fn calls(&self) -> (plans: Vec<Result<HttpCall, CredentialPart>>)
        ensures
            plans.len() == self@.requests.len(),
            forall|i: int|
                0 <= i < plans.len() ==> match rejected_credential(
                    self@.api_key,
                    self@.api_host,
                ) {
                    Some(part) => #[trigger] plans@[i] == Err::<HttpCall, CredentialPart>(part),
                    None => plans@[i] matches Ok(call) && call@ == search_call(
                        self@.api_key,
                        self@.api_host,
                        self@.requests[i],
                    ),
                },
    {
        let mut plans: Vec<Result<HttpCall, CredentialPart>> = Vec::new();
        let mut i: usize = 0;
        while i < self.requests.len()
            invariant
                i <= self.requests.len(),
                plans.len() == i,
                forall|j: int|
                    0 <= j < plans.len() ==> match rejected_credential(
                        self.api_key@,
                        self.api_host@,
                    ) {
                        Some(part) => #[trigger] plans@[j] == Err::<HttpCall, CredentialPart>(part),
                        None => plans@[j] matches Ok(call) && call@ == search_call(
                            self.api_key@,
                            self.api_host@,
                            self.requests@[j]@,
                        ),
                    },
            decreases self.requests.len() - i,
        {
            let plan = plan_search(
                self.api_key.as_str(),
                self.api_host.as_str(),
                &self.requests[i],
            );
            plans.push(plan);
            i += 1;
        }
        plans
    }

    /// Ends the search phase, once every search has come back: `replies`
    /// holds one reply per request, in the order of the requests. There is
    /// then one outcome per request, in that same order. Where no outcome
    /// is selected for download the batch is over, with the outcomes in the
    /// report; else the user is to be asked where to save.
    pub fn conclude(self, replies: &Vec<SearchReply>) -> (next: AfterSearch)
        requires
            replies.len() == self@.requests.len(),
        ensures
            ({
                let outcomes = search_outcomes(
                    self@.api_host,
                    self@.requests,
                    replies_view(replies@),
                );
                if jobs_of(outcomes).len() == 0 {
                    next matches AfterSearch::Finished(report) && report@ == (
                    ReportView::NothingFound { outcomes })
                } else {
                    next matches AfterSearch::AskDestination(phase) && phase@ == (SavePhaseView {
                        api_key: self@.api_key,
                        api_host: self@.api_host,
                        outcomes,
                        jobs: jobs_of(outcomes),
                    })
                }
            }),
    {
        let outcomes = collect_outcomes(self.api_host.as_str(), &self.requests, replies);
        let jobs = select_downloads(&outcomes);
        if jobs.len() == 0 {
            AfterSearch::Finished(Report::NothingFound { outcomes })
        } else {
            AfterSearch::AskDestination(
                SavePhase { api_key: self.api_key, api_host: self.api_host, outcomes, jobs },
            )
        }
    }
}

impl View for SavePhase {
    type V = SavePhaseView;

    closed spec fn view(&self) -> SavePhaseView {
        SavePhaseView {
            api_key: self.api_key@,
            api_host: self.api_host@,
            outcomes: outcomes_view(self.outcomes@),
            jobs: jobs_view(self.jobs@),
        }
    }
}

impl SavePhase {
    #[verifier::type_invariant]
    spec fn consistent(&self) -> bool {
        jobs_view(self.jobs@) == jobs_of(outcomes_view(self.outcomes@))
    }

    /// The outcomes of the search phase, one per request, in batch order.
    pub fn outcomes(&self) -> (outcomes: &Vec<BookOutcome>)
        ensures
            outcomes_view(outcomes@) == self@.outcomes,
    {
        &self.outcomes
    }

    /// The downloads to attempt: those of the outcomes.
    pub fn jobs(&self) -> (jobs: &Vec<DownloadJob>)
        ensures
            jobs_view(jobs@) == self@.jobs,
            self@.jobs == jobs_of(self@.outcomes),
    {
        proof {
            use_type_invariant(self);
        }
        &self.jobs
    }

    /// Takes the answer of the save prompt. Without a destination the
    /// batch is over, as cancelled, and is no error; with one, the
    /// downloads are to be made.
    pub fn answer(self, destination: Option<String>) -> (next: AfterPrompt)
        ensures
            match destination {
                None => next matches AfterPrompt::Finished(report) && report@
                    == ReportView::Cancelled,
                Some(place) => next matches AfterPrompt::Download(phase) && phase@ == (
                DownloadPhaseView {
                    api_key: self@.api_key,
                    api_host: self@.api_host,
                    outcomes: self@.outcomes,
                    jobs: self@.jobs,
                    destination: place@,
                }),
            },
    {
        proof {
            use_type_invariant(&self);
        }
        match destination {
            None => AfterPrompt::Finished(Report::Cancelled),
            Some(place) => AfterPrompt::Download(
                DownloadPhase {
                    api_key: self.api_key,
                    api_host: self.api_host,
                    outcomes: self.outcomes,
                    jobs: self.jobs,
                    destination: place,
                },
            ),
        }
    }
}

impl View for DownloadPhase {
    type V = DownloadPhaseView;

    closed spec fn view(&self) -> DownloadPhaseView {
        DownloadPhaseView {
            api_key: self.api_key@,
            api_host: self.api_host@,
            outcomes: outcomes_view(self.outcomes@),
            jobs: jobs_view(self.jobs@),
            destination: self.destination@,
        }
    }
}

impl DownloadPhase {
    #[verifier::type_invariant]
    spec fn consistent(&self) -> bool {
        jobs_view(self.jobs@) == jobs_of(outcomes_view(self.outcomes@))
    }

    /// The key under which the downloads are made.
    pub fn api_key(&self) -> (key: &str)
        ensures
            key@ == self@.api_key,
    {
        self.api_key.as_str()
    }

    /// The host at which the downloads are made.
    pub fn api_host(&self) -> (host: &str)
        ensures
            host@ == self@.api_host,
    {
        self.api_host.as_str()
    }

    /// The destination that was chosen, as it is shown to the user.
    pub fn destination(&self) -> (place: &str)
        ensures
            place@ == self@.destination,
    {
        self.destination.as_str()
    }

    /// The outcomes of the search phase, one per request, in batch order.
    pub fn outcomes(&self) -> (outcomes: &Vec<BookOutcome>)
        ensures
            outcomes_view(outcomes@) == self@.outcomes,
    {
        &self.outcomes
    }

    /// The downloads to attempt: those of the outcomes.
    pub fn jobs(&self) -> (jobs: &Vec<DownloadJob>)
        ensures
            jobs_view(jobs@) == self@.jobs,
            self@.jobs == jobs_of(self@.outcomes),
    {
        proof {
            use_type_invariant(self);
        }
        &self.jobs
    }

    /// Ends the download phase, once every download has come back:
    /// `results` holds one result per job, in the order of the jobs. Each
    /// download that returned bytes becomes an entry, named after its
    /// request; each that did not is counted, and its outcome carries the
    /// failure. Every other outcome is untouched.
    pub fn settle(self, results: Vec<Fetched>) -> (next: ArchivePhase)
        requires
            results.len() == self@.jobs.len(),
        ensures
            next@ == (ArchivePhaseView {
                destination: self@.destination,
                outcomes: settled(
                    self@.outcomes,
                    job_positions(self@.jobs),
                    results_view(results@),
                ),
                entries: entries_of(
                    self@.outcomes,
                    job_positions(self@.jobs),
                    results_view(results@),
                ),
                failed_downloads: failed_downloads(results_view(results@)),
            }),
            next@.entries.len() + next@.failed_downloads == results.len(),
    {
        proof {
            use_type_invariant(&self);
        }
        let settlement = settle_downloads(self.outcomes, &self.jobs, results);
        ArchivePhase {
            destination: self.destination,
            outcomes: settlement.outcomes,
            entries: settlement.entries,
            failed_downloads: settlement.failed_downloads,
        }
    }
}

impl View for ArchivePhase {
    type V = ArchivePhaseView;

    closed spec fn view(&self) -> ArchivePhaseView {
        ArchivePhaseView {
            destination: self.destination@,
            outcomes: outcomes_view(self.outcomes@),
            entries: entries_view(self.entries@),
            failed_downloads: self.failed_downloads as nat,
        }
    }
}

impl ArchivePhase {
    #[verifier::type_invariant]
    spec fn bounded(&self) -> bool {
        self.entries.len() + self.failed_downloads <= usize::MAX
    }

    /// The entries to package, in order.
    pub fn entries(&self) -> (entries: &Vec<ArchiveEntry>)
        ensures
            entries_view(entries@) == self@.entries,
    {
        &self.entries
    }

    /// The outcomes of all requests, in batch order.
    pub fn outcomes(&self) -> (outcomes: &Vec<BookOutcome>)
        ensures
            outcomes_view(outcomes@) == self@.outcomes,
    {
        &self.outcomes
    }

    /// How many downloads returned no bytes.
    pub fn failed_downloads(&self) -> (count: usize)
        ensures
            count == self@.failed_downloads,
    {
        self.failed_downloads
    }

    /// Ends the batch on what the archiver made of the entries: `packed`
    /// holds one fate per entry. A container that was not completed ends
    /// the batch with `CannotFinalize` and the cause. Else the batch is
    /// delivered: the stored entries are the downloads that succeeded, every
    /// other entry counts as failed beside the failed downloads, so that
    /// succeeded and failed together are the downloads that were attempted,
    /// and the report holds the counts and the outcomes that are not found.
    pub fn deliver(self, packed: Packed) -> (delivered: Result<Delivery, BatchError>)
        requires
            packed.fates.len() == self@.entries.len(),
        ensures
            match packed.archive {
                Err(cause) => delivered matches Err(e) && e@ == BatchErrorView::CannotFinalize(
                    cause@,
                ),
                Ok(bytes) => {
                    &&& delivered matches Ok(delivery)
                    &&& delivery.archive@ == bytes@
                    &&& delivery.fates@ == packed.fates@
                    &&& outcomes_view(delivery.outcomes@) == self@.outcomes
                    &&& delivery.report@ == saved_report(self@, packed.fates@)
                },
            },
    {
        proof {
            use_type_invariant(&self);
        }
        let fates = packed.fates;
        match packed.archive {
            Err(cause) => Err(BatchError::CannotFinalize(cause)),
            Ok(archive) => {
                let succeeded = count_stored(&fates);
                let others = outcomes_not_found(&self.outcomes);
                let failed = self.failed_downloads + (self.entries.len() - succeeded);
                Ok(
                    Delivery {
                        archive,
                        report: Report::Saved {
                            destination: self.destination,
                            succeeded,
                            failed,
                            others,
                        },
                        outcomes: self.outcomes,
                        fates,
                    },
                )
            },
        }
    }

    /// Packages the entries into one container, in order, and reports. An
    /// entry is stored where it fits and the archiver opens a member of its
    /// name after the entries stored before it; an entry that is not stored
    /// counts as a failure beside the failed downloads and stops nothing.
    /// The batch is delivered exactly where the archiver completes a
    /// container of the entries stored, and the container is then the image
    /// of exactly those entries; else the batch ends with `CannotFinalize`.
    pub fn package(self) -> (delivered: Result<Delivery, BatchError>)
        ensures
            delivered is Ok <==> container_closes(
                stored_members(self@.entries, owed_fates(self@.entries)),
            ),
            match delivered {
                Ok(delivery) => {
                    &&& delivery.fates@ == owed_fates(self@.entries)
                    &&& fates_obey(self@.entries, delivery.fates@)
                    &&& delivery.archive@ == container_image(
                        stored_members(self@.entries, delivery.fates@),
                    )
                    &&& outcomes_view(delivery.outcomes@) == self@.outcomes
                    &&& delivery.report@ == saved_report(self@, delivery.fates@)
                },
                Err(error) => error is CannotFinalize,
            },
    {
        let packed = pack(&self.entries);
        self.deliver(packed)
    }
}

/// The report of a batch that was packaged, by the fates of its entries:
/// the stored entries are the downloads that succeeded; the entries that
/// were not stored and the failed downloads are those that failed; the
/// outcomes that are not found are listed.
pub open spec fn saved_report(phase: ArchivePhaseView, fates: Seq<EntryFate>) -> ReportView {
    ReportView::Saved {
        destination: phase.destination,
        succeeded: stored_count(fates),
        failed: (phase.failed_downloads + phase.entries.len() - stored_count(fates)) as nat,
        others: not_found(phase.outcomes),
    }
}

/// The counts of a report add up: where there is one fate per entry,
/// succeeded and failed together are the entries and the failed downloads,
/// that is, the downloads that were attempted.
pub proof fn lemma_counts_add_up(phase: ArchivePhaseView, fates: Seq<EntryFate>)
    requires
        fates.len() == phase.entries.len(),
    ensures
        stored_count(fates) <= phase.entries.len(),
        saved_report(phase, fates) matches ReportView::Saved { succeeded, failed, .. }
            && succeeded + failed == phase.entries.len() + phase.failed_downloads,
{
    lemma_stored_count_bound(fates);
}

} // verus!
