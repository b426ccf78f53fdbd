//! The search for one request: the call to make, and the outcome that
//! follows from what came back. Every failure is an outcome; none leaves
//! this module in another form.

use vstd::prelude::*;
use crate::matcher::{best_match, select_candidate};
use crate::model::{
    candidates_view, pairs_view, BookOutcome, BookOutcomeView, BookRequest, BookRequestView,
    CredentialPart, HttpCall, HttpCallView, HttpStatus, HttpStatusView, SearchCandidate,
    SearchCandidateView, Status, StatusView,
};
use crate::text::join;
use crate::transport::{
    answered_with_success, check_credentials, credential_header_fields, credential_headers,
    is_success, pair_of, rejected_credential,
};

verus! {

/// What came back from the search for one request.
#[derive(Debug, PartialEq, Eq)]
pub enum SearchReply {
    /// No call was made: this credential value does not encode.
    NotSent(CredentialPart),
    /// The call did not complete.
    NoResponse,
    /// The call was answered. `candidates` is the parsed body, `None` where
    /// the body has not the expected shape; it is not looked at unless the
    /// status is a success.
    Answered { status: HttpStatus, candidates: Option<Vec<SearchCandidate>> },
}

pub enum SearchReplyView {
    NotSent(CredentialPart),
    NoResponse,
    Answered { status: HttpStatusView, candidates: Option<Seq<SearchCandidateView>> },
}

impl View for SearchReply {
    type V = SearchReplyView;

    open spec fn view(&self) -> SearchReplyView {
        match self {
            SearchReply::NotSent(part) => SearchReplyView::NotSent(*part),
            SearchReply::NoResponse => SearchReplyView::NoResponse,
            SearchReply::Answered { status, candidates } => SearchReplyView::Answered {
                status: status@,
                candidates: match candidates {
                    Some(list) => Some(candidates_view(list@)),
                    None => None,
                },
            },
        }
    }
}

/// The free-text query for a request: title, author and year, a space
/// between them.
pub open spec fn search_query(request: BookRequestView) -> Seq<char> {
    request.title + " "@ + request.author + " "@ + request.year
}

/// The address of the search endpoint on `host`.
pub open spec fn search_url(host: Seq<char>) -> Seq<char> {
    "https://"@ + host + "/search"@
}

/// The query parameters of a search: the query text, then the fixed
/// filters for document type, ordering, language and result cap.
pub open spec fn search_parameters(request: BookRequestView) -> Seq<(Seq<char>, Seq<char>)> {
    seq![
        ("q"@, search_query(request)),
        ("ext"@, "epub"@),
        ("sort"@, "mostRelevant"@),
        ("lang"@, "en"@),
        ("limit"@, "10"@),
    ]
}

/// The search call for a request.
pub open spec fn search_call(
    key: Seq<char>,
    host: Seq<char>,
    request: BookRequestView,
) -> HttpCallView {
    HttpCallView {
        url: search_url(host),
        headers: credential_headers(key, host),
        query: search_parameters(request),
    }
}

/// The reference under which a matched candidate is retrieved: the address
/// of the resolve endpoint on `host` for the candidate's content identifier.
pub open spec fn retrieval_ref(host: Seq<char>, content_id: Seq<char>) -> Seq<char> {
    "https://"@ + host + "/download?md5="@ + content_id
}

/// The status and the retrieval reference that follow from a reply.
pub open spec fn search_verdict(
    host: Seq<char>,
    request: BookRequestView,
    reply: SearchReplyView,
) -> (StatusView, Option<Seq<char>>) {
    match reply {
        SearchReplyView::NotSent(part) => (StatusView::InvalidCredential(part), None),
        SearchReplyView::NoResponse => (StatusView::SearchError(None), None),
        SearchReplyView::Answered { status, candidates } => if !is_success(status.code) {
            (StatusView::SearchError(Some(status.line)), None)
        } else {
            match candidates {
                None => (StatusView::ParseError, None),
                Some(list) => match best_match(request, list) {
                    None => (StatusView::NotFound, None),
                    Some(i) => (StatusView::Found, Some(retrieval_ref(host, list[i].content_id))),
                },
            }
        },
    }
}

/// The outcome of a request, given what came back from its search.
pub open spec fn search_outcome(
    host: Seq<char>,
    request: BookRequestView,
    reply: SearchReplyView,
) -> BookOutcomeView {
    BookOutcomeView {
        request,
        status: search_verdict(host, request, reply).0,
        retrieval_ref: search_verdict(host, request, reply).1,
    }
}

/// An outcome of a search is found exactly when it carries a retrieval
/// reference, and it always carries the request it answers.
pub proof fn lemma_found_carries_reference(
    host: Seq<char>,
    request: BookRequestView,
    reply: SearchReplyView,
)
    ensures
        search_outcome(host, request, reply).request == request,
        search_outcome(host, request, reply).status == StatusView::Found <==> search_outcome(
            host,
            request,
            reply,
        ).retrieval_ref is Some,
{
}

/// The query text for a request.
pub fn query_text(request: &BookRequest) -> (query: String)
    ensures
        query@ == search_query(request@),
{
    let a = join(request.title.as_str(), " ");
    let b = join(a.as_str(), request.author.as_str());
    let c = join(b.as_str(), " ");
    join(c.as_str(), request.year.as_str())
}

/// The retrieval reference for a content identifier.
pub fn retrieval_ref_for(api_host: &str, content_id: &str) -> (reference: String)
    ensures
        reference@ == retrieval_ref(api_host@, content_id@),
{
    let a = join("https://", api_host);
    let b = join(a.as_str(), "/download?md5=");
    join(b.as_str(), content_id)
}

/// Plans the search for one request. Where a credential value does not
/// encode as a header value, the key looked at first, no call is to be
/// made and the error names the value; else the call is the search call
/// for the request.
pub fn plan_search(api_key: &str, api_host: &str, request: &BookRequest) -> (plan: Result<
    HttpCall,
    CredentialPart,
>)
    ensures
        match rejected_credential(api_key@, api_host@) {
            Some(part) => plan == Err::<HttpCall, CredentialPart>(part),
            None => plan matches Ok(call) && call@ == search_call(api_key@, api_host@, request@),
        },
{
    match check_credentials(api_key, api_host) {
        Err(e) => Err(e.0),
        Ok(()) => {
            let a = join("https://", api_host);
            let url = join(a.as_str(), "/search");
            let headers = credential_header_fields(api_key, api_host);
            let query_value = query_text(request);
            let mut query: Vec<(String, String)> = Vec::new();
            query.push(pair_of("q", query_value.as_str()));
            query.push(pair_of("ext", "epub"));
            query.push(pair_of("sort", "mostRelevant"));
            query.push(pair_of("lang", "en"));
            query.push(pair_of("limit", "10"));
            assert(pairs_view(query@) =~= search_parameters(request@));
            Ok(HttpCall { url, headers, query })
        },
    }
}

/// Concludes the search for one request from what came back: the outcome
/// carries the request, and its status and retrieval reference are those
/// of `search_verdict`.
pub fn conclude_search(api_host: &str, request: BookRequest, reply: &SearchReply) -> (outcome:
    BookOutcome)
    ensures
        outcome@ == search_outcome(api_host@, request@, reply@),
{
    match reply {
        SearchReply::NotSent(part) => BookOutcome {
            request,
            status: Status::InvalidCredential(*part),
            retrieval_ref: None,
        },
        SearchReply::NoResponse => BookOutcome {
            request,
            status: Status::SearchError(None),
            retrieval_ref: None,
        },
        SearchReply::Answered { status, candidates } => {
            if !answered_with_success(status) {
                BookOutcome {
                    request,
                    status: Status::SearchError(Some(status.line.clone())),
                    retrieval_ref: None,
                }
            } else {
                match candidates {
                    None => BookOutcome {
                        request,
                        status: Status::ParseError,
                        retrieval_ref: None,
                    },
                    Some(list) => match select_candidate(&request, list) {
                        None => BookOutcome {
                            request,
                            status: Status::NotFound,
                            retrieval_ref: None,
                        },
                        Some(i) => {
                            let reference = retrieval_ref_for(
                                api_host,
                                list[i].content_id.as_str(),
                            );
                            BookOutcome {
                                request,
                                status: Status::Found,
                                retrieval_ref: Some(reference),
                            }
                        },
                    },
                }
            }
        },
    }
}

} // verus!
