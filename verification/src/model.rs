//! The records that flow through the pipeline, each with the view under
//! which the contracts speak of it.

use vstd::prelude::*;

verus! {

/// One book to resolve. Its identity is its position in the batch.
#[derive(Debug, PartialEq, Eq)]
pub struct BookRequest {
    pub title: String,
    pub author: String,
    pub year: String,
}

pub struct BookRequestView {
    pub title: Seq<char>,
    pub author: Seq<char>,
    pub year: Seq<char>,
}

impl View for BookRequest {
    type V = BookRequestView;

    open spec fn view(&self) -> BookRequestView {
        BookRequestView { title: self.title@, author: self.author@, year: self.year@ }
    }
}

/// One record of a search response.
#[derive(Debug, PartialEq, Eq)]
pub struct SearchCandidate {
    pub title: String,
    pub author: String,
    pub year: String,
    /// Opaque identifier under which the file is retrieved.
    pub content_id: String,
    pub source: String,
}

pub struct SearchCandidateView {
    pub title: Seq<char>,
    pub author: Seq<char>,
    pub year: Seq<char>,
    pub content_id: Seq<char>,
    pub source: Seq<char>,
}

impl View for SearchCandidate {
    type V = SearchCandidateView;

    open spec fn view(&self) -> SearchCandidateView {
        SearchCandidateView {
            title: self.title@,
            author: self.author@,
            year: self.year@,
            content_id: self.content_id@,
            source: self.source@,
        }
    }
}

/// Which of the two credential values is meant.
#[derive(Clone, Copy, Debug, PartialEq, Eq, Structural)]
pub enum CredentialPart {
    Key,
    Host,
}

/// Where a download went wrong.
#[derive(Clone, Copy, Debug, PartialEq, Eq, Structural)]
pub enum DownloadFailure {
    /// The key does not encode as a header value.
    InvalidKey,
    /// The host does not encode as a header value.
    InvalidHost,
    /// The resolve call did not complete.
    ResolveFailed,
    /// The resolve call was answered with a status other than success.
    ResolveRejected,
    /// The resolve response is no list of texts.
    ResolveUnreadable,
    /// The resolve response lists no location.
    NoLinks,
    /// The retrieve call did not complete.
    RetrieveFailed,
    /// The retrieve call was answered with a status other than success.
    RetrieveRejected,
    /// The bytes of the retrieve response could not be read.
    RetrieveUnreadable,
}

/// A failed download: where it failed, and the cause as the transport
/// worded it.
#[derive(Debug, PartialEq, Eq)]
pub struct DownloadError {
    pub failure: DownloadFailure,
    pub detail: String,
}

pub struct DownloadErrorView {
    pub failure: DownloadFailure,
    pub detail: Seq<char>,
}

impl View for DownloadError {
    type V = DownloadErrorView;

    open spec fn view(&self) -> DownloadErrorView {
        DownloadErrorView { failure: self.failure, detail: self.detail@ }
    }
}

/// How the resolution of one request ended.
#[derive(Debug, PartialEq, Eq)]
pub enum Status {
    Found,
    NotFound,
    /// A credential value does not encode as a header value.
    InvalidCredential(CredentialPart),
    /// The search call failed; with the status line where one came back.
    SearchError(Option<String>),
    /// The search response has not the expected shape.
    ParseError,
    /// The match was found and its download failed.
    DownloadError(DownloadError),
}

pub enum StatusView {
    Found,
    NotFound,
    InvalidCredential(CredentialPart),
    SearchError(Option<Seq<char>>),
    ParseError,
    DownloadError(DownloadErrorView),
}

impl View for Status {
    type V = StatusView;

    open spec fn view(&self) -> StatusView {
        match self {
            Status::Found => StatusView::Found,
            Status::NotFound => StatusView::NotFound,
            Status::InvalidCredential(part) => StatusView::InvalidCredential(*part),
            Status::SearchError(line) => StatusView::SearchError(
                match line {
                    Some(text) => Some(text@),
                    None => None,
                },
            ),
            Status::ParseError => StatusView::ParseError,
            Status::DownloadError(error) => StatusView::DownloadError(error@),
        }
    }
}

/// The outcome of one request: there is exactly one per request.
#[derive(Debug, PartialEq, Eq)]
pub struct BookOutcome {
    pub request: BookRequest,
    pub status: Status,
    /// Where the matched file is resolved; set with status `Found`.
    pub retrieval_ref: Option<String>,
}

pub struct BookOutcomeView {
    pub request: BookRequestView,
    pub status: StatusView,
    pub retrieval_ref: Option<Seq<char>>,
}

impl View for BookOutcome {
    type V = BookOutcomeView;

    open spec fn view(&self) -> BookOutcomeView {
        BookOutcomeView {
            request: self.request@,
            status: self.status@,
            retrieval_ref: match self.retrieval_ref {
                Some(text) => Some(text@),
                None => None,
            },
        }
    }
}

/// The status of a response: its code and its line as the transport
/// words it.
#[derive(Debug, PartialEq, Eq)]
pub struct HttpStatus {
    pub code: u16,
    pub line: String,
}

pub struct HttpStatusView {
    pub code: u16,
    pub line: Seq<char>,
}

impl View for HttpStatus {
    type V = HttpStatusView;

    open spec fn view(&self) -> HttpStatusView {
        HttpStatusView { code: self.code, line: self.line@ }
    }
}

/// A GET call for the caller to make: where, with which header fields and
/// which query parameters, each in order.
#[derive(Debug, PartialEq, Eq)]
pub struct HttpCall {
    pub url: String,
    pub headers: Vec<(String, String)>,
    pub query: Vec<(String, String)>,
}

pub struct HttpCallView {
    pub url: Seq<char>,
    pub headers: Seq<(Seq<char>, Seq<char>)>,
    pub query: Seq<(Seq<char>, Seq<char>)>,
}

impl View for HttpCall {
    type V = HttpCallView;

    open spec fn view(&self) -> HttpCallView {
        HttpCallView {
            url: self.url@,
            headers: pairs_view(self.headers@),
            query: pairs_view(self.query@),
        }
    }
}

/// One member of the archive to be.
#[derive(Debug, PartialEq, Eq)]
pub struct ArchiveEntry {
    pub file_name: String,
    pub payload: Vec<u8>,
}

pub struct ArchiveEntryView {
    pub file_name: Seq<char>,
    pub payload: Seq<u8>,
}

impl View for ArchiveEntry {
    type V = ArchiveEntryView;

    open spec fn view(&self) -> ArchiveEntryView {
        ArchiveEntryView { file_name: self.file_name@, payload: self.payload@ }
    }
}

/// The views of a list of name and value pairs, in order.
pub open spec fn pairs_view(pairs: Seq<(String, String)>) -> Seq<(Seq<char>, Seq<char>)> {
    pairs.map_values(|p: (String, String)| (p.0@, p.1@))
}

/// The views of a list of candidates, in order.
pub open spec fn candidates_view(candidates: Seq<SearchCandidate>) -> Seq<SearchCandidateView> {
    candidates.map_values(|c: SearchCandidate| c@)
}

/// The views of a list of requests, in order.
pub open spec fn requests_view(requests: Seq<BookRequest>) -> Seq<BookRequestView> {
    requests.map_values(|r: BookRequest| r@)
}

/// The views of a list of outcomes, in order.
pub open spec fn outcomes_view(outcomes: Seq<BookOutcome>) -> Seq<BookOutcomeView> {
    outcomes.map_values(|o: BookOutcome| o@)
}

/// The views of a list of entries, in order.
pub open spec fn entries_view(entries: Seq<ArchiveEntry>) -> Seq<ArchiveEntryView> {
    entries.map_values(|e: ArchiveEntry| e@)
}

/// The views of a list of texts, in order.
pub open spec fn texts_view(texts: Seq<String>) -> Seq<Seq<char>> {
    texts.map_values(|t: String| t@)
}

/// The view of a text that may be absent.
pub open spec fn text_view(text: Option<String>) -> Option<Seq<char>> {
    match text {
        Some(t) => Some(t@),
        None => None,
    }
}

impl DownloadError {
    /// A copy of the error.
    pub fn duplicate(&self) -> (copy: DownloadError)
        ensures
            copy@ == self@,
    {
        DownloadError { failure: self.failure, detail: self.detail.clone() }
    }
}

impl Status {
    /// A copy of the status.
    pub fn duplicate(&self) -> (copy: Status)
        ensures
            copy@ == self@,
    {
        match self {
            Status::Found => Status::Found,
            Status::NotFound => Status::NotFound,
            Status::InvalidCredential(part) => Status::InvalidCredential(*part),
            Status::SearchError(None) => Status::SearchError(None),
            Status::SearchError(Some(line)) => Status::SearchError(Some(line.clone())),
            Status::ParseError => Status::ParseError,
            Status::DownloadError(error) => Status::DownloadError(error.duplicate()),
        }
    }
}

impl BookOutcome {
    /// A copy of the outcome.
    pub fn duplicate(&self) -> (copy: BookOutcome)
        ensures
            copy@ == self@,
    {
        BookOutcome {
            request: self.request.duplicate(),
            status: self.status.duplicate(),
            retrieval_ref: match &self.retrieval_ref {
                Some(reference) => Some(reference.clone()),
                None => None,
            },
        }
    }
}

impl BookRequest {
    /// A copy of the request.
    pub fn duplicate(&self) -> (copy: BookRequest)
        ensures
            copy@ == self@,
    {
        BookRequest {
            title: self.title.clone(),
            author: self.author.clone(),
            year: self.year.clone(),
        }
    }
}

} // verus!
