//! What the batch reports at its end: the summary in words, and the
//! conditions that end a batch as a whole.

use vstd::prelude::*;
use crate::model::{
    outcomes_view, BookOutcome, BookOutcomeView, CredentialPart, Status, StatusView,
};
use crate::fetcher::failure_message;
use crate::text::{decimal, decimal_string, is_substring, join, lemma_substring_of_concat};

verus! {

/// A condition that ends the whole batch.
#[derive(Debug, PartialEq, Eq)]
pub enum BatchError {
    /// No key was supplied.
    MissingKey,
    /// The key supplied is empty.
    EmptyKey,
    /// The batch holds no request.
    EmptyBatch,
    /// The destination chosen is no path.
    InvalidDestination,
    /// The destination could not be created; with the cause.
    CannotCreate(String),
    /// The container could not be completed; with the cause.
    CannotFinalize(String),
}

pub enum BatchErrorView {
    MissingKey,
    EmptyKey,
    EmptyBatch,
    InvalidDestination,
    CannotCreate(Seq<char>),
    CannotFinalize(Seq<char>),
}

impl View for BatchError {
    type V = BatchErrorView;

    open spec fn view(&self) -> BatchErrorView {
        match self {
            BatchError::MissingKey => BatchErrorView::MissingKey,
            BatchError::EmptyKey => BatchErrorView::EmptyKey,
            BatchError::EmptyBatch => BatchErrorView::EmptyBatch,
            BatchError::InvalidDestination => BatchErrorView::InvalidDestination,
            BatchError::CannotCreate(cause) => BatchErrorView::CannotCreate(cause@),
            BatchError::CannotFinalize(cause) => BatchErrorView::CannotFinalize(cause@),
        }
    }
}

/// A batch-ending condition in words.
pub open spec fn batch_error_message(error: BatchErrorView) -> Seq<char> {
    match error {
        BatchErrorView::MissingKey =>
            "API_KEY environment variable not found. Please set it in your .env file."@,
        BatchErrorView::EmptyKey => "API_KEY is empty. Please provide a valid API key."@,
        BatchErrorView::EmptyBatch => "No books provided for processing."@,
        BatchErrorView::InvalidDestination => "Invalid file path selected"@,
        BatchErrorView::CannotCreate(cause) => "Failed to create zip file: "@ + cause,
        BatchErrorView::CannotFinalize(cause) => "Failed to finalize zip file: "@ + cause,
    }
}

impl BatchError {
    /// The condition in words.
    pub fn message(&self) -> (text: String)
        ensures
            text@ == batch_error_message(self@),
    {
        match self {
            BatchError::MissingKey =>
                "API_KEY environment variable not found. Please set it in your .env file.".to_owned(),
            BatchError::EmptyKey => "API_KEY is empty. Please provide a valid API key.".to_owned(),
            BatchError::EmptyBatch => "No books provided for processing.".to_owned(),
            BatchError::InvalidDestination => "Invalid file path selected".to_owned(),
            BatchError::CannotCreate(cause) => join("Failed to create zip file: ", cause.as_str()),
            BatchError::CannotFinalize(cause) => join(
                "Failed to finalize zip file: ",
                cause.as_str(),
            ),
        }
    }
}

/// A status as the summary words it.
pub open spec fn status_label(status: StatusView) -> Seq<char> {
    match status {
        StatusView::Found => "Found"@,
        StatusView::NotFound => "Not Found"@,
        StatusView::InvalidCredential(CredentialPart::Key) => "Invalid API Key"@,
        StatusView::InvalidCredential(CredentialPart::Host) => "Invalid API Host"@,
        StatusView::SearchError(None) => "Search Error"@,
        StatusView::SearchError(Some(line)) => "Search Failed: "@ + line,
        StatusView::ParseError => "Parse Error"@,
        StatusView::DownloadError(error) => "Download Error: "@ + failure_message(error),
    }
}

/// The line of one outcome in the summary: a bullet, the title, the author,
/// the year in brackets, then the status, and a line break.
pub open spec fn outcome_line(outcome: BookOutcomeView) -> Seq<char> {
    "\u{2022} "@ + outcome.request.title + " by "@ + outcome.request.author + " ("@
        + outcome.request.year + "): "@ + status_label(outcome.status) + "\n"@
}

/// The lines of the outcomes, in order.
pub open spec fn outcome_lines(outcomes: Seq<BookOutcomeView>) -> Seq<char>
    decreases outcomes.len(),
{
    if outcomes.len() == 0 {
        seq![]
    } else {
        outcome_lines(outcomes.drop_last()) + outcome_line(outcomes.last())
    }
}

/// The summary of a batch in which nothing was matched.
pub open spec fn nothing_found_text(outcomes: Seq<BookOutcomeView>) -> Seq<char> {
    "No books found to download.\n\nSearch Results:\n"@ + outcome_lines(outcomes)
}

/// The summary of a batch whose save was declined.
pub open spec fn cancelled_text() -> Seq<char> {
    "Save operation was cancelled."@
}

/// The counts of a batch that was packaged: one line where every download
/// was stored, else the destination and both counts.
pub open spec fn counts_text(destination: Seq<char>, succeeded: nat, failed: nat) -> Seq<char> {
    if failed > 0 {
        "Package saved to "@ + destination + "\n\n\u{2713} "@ + decimal(succeeded)
            + " books downloaded successfully\n\u{2717} "@ + decimal(failed)
            + " books failed to download"@
    } else {
        "\u{2713} Successfully saved "@ + decimal(succeeded) + " books to "@ + destination
    }
}

/// The outcomes that are not found, in order: those of the requests that
/// were not matched, whose search failed, or whose download failed.
pub open spec fn not_found(outcomes: Seq<BookOutcomeView>) -> Seq<BookOutcomeView>
    decreases outcomes.len(),
{
    if outcomes.len() == 0 {
        seq![]
    } else {
        let front = not_found(outcomes.drop_last());
        if outcomes.last().status == StatusView::Found {
            front
        } else {
            front.push(outcomes.last())
        }
    }
}

/// The part of a summary that lists the outcomes for which no file was
/// downloaded: a heading and the line of each, or nothing where there is
/// none.
pub open spec fn remainder_text(others: Seq<BookOutcomeView>) -> Seq<char> {
    if others.len() == 0 {
        seq![]
    } else {
        "\n\nNot downloaded:\n"@ + outcome_lines(others)
    }
}

/// The summary of a batch that was packaged: the counts of the downloads
/// attempted, then the line of each outcome for which no file was
/// downloaded.
pub open spec fn saved_text(
    destination: Seq<char>,
    succeeded: nat,
    failed: nat,
    others: Seq<BookOutcomeView>,
) -> Seq<char> {
    counts_text(destination, succeeded, failed) + remainder_text(others)
}

/// How a batch ended.
#[derive(Debug, PartialEq, Eq)]
pub enum Report {
    /// No request was matched: nothing was downloaded, and no destination
    /// was asked for.
    NothingFound { outcomes: Vec<BookOutcome> },
    /// The user declined to save.
    Cancelled,
    /// The package was made. `destination` is the place as it is shown to
    /// the user; the counts are of the downloads attempted; `others` holds
    /// the outcomes that are not found, in batch order.
    Saved { destination: String, succeeded: usize, failed: usize, others: Vec<BookOutcome> },
}

pub enum ReportView {
    NothingFound { outcomes: Seq<BookOutcomeView> },
    Cancelled,
    Saved { destination: Seq<char>, succeeded: nat, failed: nat, others: Seq<BookOutcomeView> },
}

impl View for Report {
    type V = ReportView;

    open spec fn view(&self) -> ReportView {
        match self {
            Report::NothingFound { outcomes } => ReportView::NothingFound {
                outcomes: outcomes_view(outcomes@),
            },
            Report::Cancelled => ReportView::Cancelled,
            Report::Saved { destination, succeeded, failed, others } => ReportView::Saved {
                destination: destination@,
                succeeded: *succeeded as nat,
                failed: *failed as nat,
                others: outcomes_view(others@),
            },
        }
    }
}

/// The summary in words.
pub open spec fn report_text(report: ReportView) -> Seq<char> {
    match report {
        ReportView::NothingFound { outcomes } => nothing_found_text(outcomes),
        ReportView::Cancelled => cancelled_text(),
        ReportView::Saved { destination, succeeded, failed, others } => saved_text(
            destination,
            succeeded,
            failed,
            others,
        ),
    }
}

impl Status {
    /// The status as the summary words it.
    pub fn label(&self) -> (text: String)
        ensures
            text@ == status_label(self@),
    {
        match self {
            Status::Found => "Found".to_owned(),
            Status::NotFound => "Not Found".to_owned(),
            Status::InvalidCredential(CredentialPart::Key) => "Invalid API Key".to_owned(),
            Status::InvalidCredential(CredentialPart::Host) => "Invalid API Host".to_owned(),
            Status::SearchError(None) => "Search Error".to_owned(),
            Status::SearchError(Some(line)) => join("Search Failed: ", line.as_str()),
            Status::ParseError => "Parse Error".to_owned(),
            Status::DownloadError(error) => {
                let cause = error.message();
                join("Download Error: ", cause.as_str())
            },
        }
    }
}

impl BookOutcome {
    /// The line of the outcome in the summary.
    pub fn line(&self) -> (text: String)
        ensures
            text@ == outcome_line(self@),
    {
        let label = self.status.label();
        let a = join("\u{2022} ", self.request.title.as_str());
        let b = join(a.as_str(), " by ");
        let c = join(b.as_str(), self.request.author.as_str());
        let d = join(c.as_str(), " (");
        let e = join(d.as_str(), self.request.year.as_str());
        let f = join(e.as_str(), "): ");
        let g = join(f.as_str(), label.as_str());
        join(g.as_str(), "\n")
    }
}

/// Every outcome that is not found is among `not_found` of the outcomes,
/// and every outcome among them is one of the outcomes and is not found.
pub proof fn lemma_not_found(outcomes: Seq<BookOutcomeView>)
    ensures
        forall|p: int|
            0 <= p < outcomes.len() && (#[trigger] outcomes[p]).status != StatusView::Found
                ==> not_found(outcomes).contains(outcomes[p]),
        forall|k: int|
            0 <= k < not_found(outcomes).len() ==> (#[trigger] not_found(outcomes)[k]).status
                != StatusView::Found && outcomes.contains(not_found(outcomes)[k]),
        not_found(outcomes).len() <= outcomes.len(),
    decreases outcomes.len(),
{
    if outcomes.len() > 0 {
        let front = outcomes.drop_last();
        let all = not_found(outcomes);
        let fewer = not_found(front);
        lemma_not_found(front);
        assert forall|p: int|
            0 <= p < outcomes.len() && (#[trigger] outcomes[p]).status
                != StatusView::Found implies all.contains(outcomes[p]) by {
            if p < front.len() {
                let k = choose|k: int| 0 <= k < fewer.len() && fewer[k] == front[p];
                assert(all[k] == outcomes[p]);
            } else {
                assert(all[all.len() - 1] == outcomes[p]);
            }
        }
    }
}

/// The line of each outcome is a part of the lines of the outcomes.
pub proof fn lemma_lines_hold_each(outcomes: Seq<BookOutcomeView>, k: int)
    requires
        0 <= k < outcomes.len(),
    ensures
        is_substring(outcome_line(outcomes[k]), outcome_lines(outcomes)),
    decreases outcomes.len(),
{
    let front = outcomes.drop_last();
    let line = outcome_line(outcomes[k]);
    if k < front.len() {
        lemma_lines_hold_each(front, k);
        lemma_substring_of_concat(line, outcome_lines(front), outcome_line(outcomes.last()));
    } else {
        lemma_substring_of_concat(line, line, line);
        lemma_substring_of_concat(line, outcome_lines(front), line);
    }
}

/// The summary of a batch that was packaged holds the line of every
/// outcome that is not found, beside the counts.
pub proof fn lemma_saved_text_holds_lines(
    destination: Seq<char>,
    succeeded: nat,
    failed: nat,
    outcomes: Seq<BookOutcomeView>,
    p: int,
)
    requires
        0 <= p < outcomes.len(),
        outcomes[p].status != StatusView::Found,
    ensures
        is_substring(
            outcome_line(outcomes[p]),
            saved_text(destination, succeeded, failed, not_found(outcomes)),
        ),
        is_substring(
            counts_text(destination, succeeded, failed),
            saved_text(destination, succeeded, failed, not_found(outcomes)),
        ),
{
    let others = not_found(outcomes);
    let counts = counts_text(destination, succeeded, failed);
    let line = outcome_line(outcomes[p]);
    lemma_not_found(outcomes);
    let k = choose|k: int| 0 <= k < others.len() && others[k] == outcomes[p];
    lemma_lines_hold_each(others, k);
    lemma_substring_of_concat(line, "\n\nNot downloaded:\n"@, outcome_lines(others));
    lemma_substring_of_concat(line, counts, remainder_text(others));
    lemma_substring_of_concat(counts, counts, remainder_text(others));
}

/// The outcomes that are not found, in order.
pub fn outcomes_not_found(outcomes: &Vec<BookOutcome>) -> (others: Vec<BookOutcome>)
    ensures
        outcomes_view(others@) == not_found(outcomes_view(outcomes@)),
{
    let ghost views = outcomes_view(outcomes@);
    let mut others: Vec<BookOutcome> = Vec::new();
    let mut i: usize = 0;
    while i < outcomes.len()
        invariant
            i <= outcomes.len(),
            views == outcomes_view(outcomes@),
            outcomes_view(others@) == not_found(views.take(i as int)),
        decreases outcomes.len() - i,
    {
        let outcome = &outcomes[i];
        proof {
            assert(views.take(i + 1).drop_last() =~= views.take(i as int));
        }
        let found = match outcome.status {
            Status::Found => true,
            _ => false,
        };
        if !found {
            others.push(outcome.duplicate());
        }
        i += 1;
    }
    assert(views.take(i as int) =~= views);
    others
}

/// The lines of the outcomes, in order.
pub fn lines_of(outcomes: &Vec<BookOutcome>) -> (text: String)
    ensures
        text@ == outcome_lines(outcomes_view(outcomes@)),
{
    let mut text = String::new();
    let ghost views = outcomes_view(outcomes@);
    let mut i: usize = 0;
    while i < outcomes.len()
        invariant
            i <= outcomes.len(),
            views == outcomes_view(outcomes@),
            text@ == outcome_lines(views.take(i as int)),
        decreases outcomes.len() - i,
    {
        let line = outcomes[i].line();
        proof {
            assert(views.take(i + 1).drop_last() =~= views.take(i as int));
        }
        text = join(text.as_str(), line.as_str());
        i += 1;
    }
    assert(views.take(i as int) =~= views);
    text
}

impl Report {
    /// The summary in words.
    pub fn render(&self) -> (text: String)
        ensures
            text@ == report_text(self@),
    {
        match self {
            Report::NothingFound { outcomes } => {
                let lines = lines_of(outcomes);
                join("No books found to download.\n\nSearch Results:\n", lines.as_str())
            },
            Report::Cancelled => "Save operation was cancelled.".to_owned(),
            Report::Saved { destination, succeeded, failed, others } => {
                let stored = decimal_string(*succeeded);
                let counts = if *failed > 0 {
                    let lost = decimal_string(*failed);
                    let a = join("Package saved to ", destination.as_str());
                    let b = join(a.as_str(), "\n\n\u{2713} ");
                    let c = join(b.as_str(), stored.as_str());
                    let d = join(c.as_str(), " books downloaded successfully\n\u{2717} ");
                    let e = join(d.as_str(), lost.as_str());
                    join(e.as_str(), " books failed to download")
                } else {
                    let a = join("\u{2713} Successfully saved ", stored.as_str());
                    let b = join(a.as_str(), " books to ");
                    join(b.as_str(), destination.as_str())
                };
                if others.len() == 0 {
                    counts
                } else {
                    let lines = lines_of(others);
                    let heading = join(counts.as_str(), "\n\nNot downloaded:\n");
                    let text = join(heading.as_str(), lines.as_str());
                    text
                }
            },
        }
    }
}

} // verus!
