//! The retrieval of one matched file, in two calls: the resolve call,
//! which lists where the file can be had, and the retrieve call to the
//! first place listed. One attempt each; a later place is never tried.

use vstd::prelude::*;
use crate::model::{
    texts_view, CredentialPart, DownloadError, DownloadErrorView, DownloadFailure, HttpCall,
    HttpCallView, HttpStatus, HttpStatusView,
};
use crate::text::join;
use crate::transport::{
    answered_with_success, check_credentials, credential_header_fields, credential_headers,
    is_success, rejected_credential,
};

verus! {

/// What came back from the resolve call.
#[derive(Debug, PartialEq, Eq)]
pub enum ResolveReply {
    /// The call did not complete; with the cause as the transport words it.
    NoResponse { cause: String },
    /// The call was answered. `links` is the parsed body, or why it is no
    /// list of texts; it is not looked at unless the status is a success.
    Answered { status: HttpStatus, links: Result<Vec<String>, String> },
}

pub enum ResolveReplyView {
    NoResponse { cause: Seq<char> },
    Answered { status: HttpStatusView, links: Result<Seq<Seq<char>>, Seq<char>> },
}

impl View for ResolveReply {
    type V = ResolveReplyView;

    open spec fn view(&self) -> ResolveReplyView {
        match self {
            ResolveReply::NoResponse { cause } => ResolveReplyView::NoResponse { cause: cause@ },
            ResolveReply::Answered { status, links } => ResolveReplyView::Answered {
                status: status@,
                links: match links {
                    Ok(list) => Ok(texts_view(list@)),
                    Err(cause) => Err(cause@),
                },
            },
        }
    }
}

/// What came back from the retrieve call.
#[derive(Debug, PartialEq, Eq)]
pub enum RetrieveReply {
    /// The call did not complete; with the cause as the transport words it.
    NoResponse { cause: String },
    /// The call was answered. `body` holds the bytes of the response, or
    /// why they could not be read; it is not looked at unless the status is
    /// a success.
    Answered { status: HttpStatus, body: Result<Vec<u8>, String> },
}

pub enum RetrieveReplyView {
    NoResponse { cause: Seq<char> },
    Answered { status: HttpStatusView, body: Result<Seq<u8>, Seq<char>> },
}

impl View for RetrieveReply {
    type V = RetrieveReplyView;

    open spec fn view(&self) -> RetrieveReplyView {
        match self {
            RetrieveReply::NoResponse { cause } => RetrieveReplyView::NoResponse { cause: cause@ },
            RetrieveReply::Answered { status, body } => RetrieveReplyView::Answered {
                status: status@,
                body: match body {
                    Ok(bytes) => Ok(bytes@),
                    Err(cause) => Err(cause@),
                },
            },
        }
    }
}

/// The resolve call for a retrieval reference: a GET of the reference with
/// the credential header fields.
pub open spec fn resolve_call(key: Seq<char>, host: Seq<char>, reference: Seq<char>) -> HttpCallView {
    HttpCallView { url: reference, headers: credential_headers(key, host), query: seq![] }
}

/// The retrieve call for a location: a plain GET of it.
pub open spec fn retrieve_call(location: Seq<char>) -> HttpCallView {
    HttpCallView { url: location, headers: seq![], query: seq![] }
}

/// The location to retrieve, given what came back from the resolve call:
/// the first one listed.
pub open spec fn resolve_outcome(reply: ResolveReplyView) -> Result<Seq<char>, DownloadErrorView> {
    match reply {
        ResolveReplyView::NoResponse { cause } => Err(
            DownloadErrorView { failure: DownloadFailure::ResolveFailed, detail: cause },
        ),
        ResolveReplyView::Answered { status, links } => if !is_success(status.code) {
            Err(DownloadErrorView { failure: DownloadFailure::ResolveRejected, detail: status.line })
        } else {
            match links {
                Err(cause) => Err(
                    DownloadErrorView { failure: DownloadFailure::ResolveUnreadable, detail: cause },
                ),
                Ok(list) => if list.len() == 0 {
                    Err(DownloadErrorView { failure: DownloadFailure::NoLinks, detail: seq![] })
                } else {
                    Ok(list[0])
                },
            }
        },
    }
}

/// The bytes of the file, given what came back from the retrieve call.
pub open spec fn retrieve_outcome(reply: RetrieveReplyView) -> Result<Seq<u8>, DownloadErrorView> {
    match reply {
        RetrieveReplyView::NoResponse { cause } => Err(
            DownloadErrorView { failure: DownloadFailure::RetrieveFailed, detail: cause },
        ),
        RetrieveReplyView::Answered { status, body } => if !is_success(status.code) {
            Err(
                DownloadErrorView { failure: DownloadFailure::RetrieveRejected, detail: status.line },
            )
        } else {
            match body {
                Err(cause) => Err(
                    DownloadErrorView { failure: DownloadFailure::RetrieveUnreadable, detail: cause },
                ),
                Ok(bytes) => Ok(bytes),
            }
        },
    }
}

/// How the cause of a failed download begins, by where it failed.
pub open spec fn failure_prefix(failure: DownloadFailure) -> Seq<char> {
    match failure {
        DownloadFailure::InvalidKey => "Invalid API key header: "@,
        DownloadFailure::InvalidHost => "Invalid API host header: "@,
        DownloadFailure::ResolveFailed => "Failed to get download link: "@,
        DownloadFailure::ResolveRejected => "Download link request failed: "@,
        DownloadFailure::ResolveUnreadable => "Failed to parse download links: "@,
        DownloadFailure::NoLinks => "API did not return any final download URLs."@,
        DownloadFailure::RetrieveFailed => "Failed to download file: "@,
        DownloadFailure::RetrieveRejected => "Failed to download file from final URL: "@,
        DownloadFailure::RetrieveUnreadable => "Failed to read file bytes: "@,
    }
}

/// The cause of a failed download in words.
pub open spec fn failure_message(error: DownloadErrorView) -> Seq<char> {
    failure_prefix(error.failure) + error.detail
}

impl DownloadError {
    /// The cause in words: where the download failed, then the detail.
    pub fn message(&self) -> (text: String)
        ensures
            text@ == failure_message(self@),
    {
        let prefix = match self.failure {
            DownloadFailure::InvalidKey => "Invalid API key header: ",
            DownloadFailure::InvalidHost => "Invalid API host header: ",
            DownloadFailure::ResolveFailed => "Failed to get download link: ",
            DownloadFailure::ResolveRejected => "Download link request failed: ",
            DownloadFailure::ResolveUnreadable => "Failed to parse download links: ",
            DownloadFailure::NoLinks => "API did not return any final download URLs.",
            DownloadFailure::RetrieveFailed => "Failed to download file: ",
            DownloadFailure::RetrieveRejected => "Failed to download file from final URL: ",
            DownloadFailure::RetrieveUnreadable => "Failed to read file bytes: ",
        };
        join(prefix, self.detail.as_str())
    }
}

/// The kind of failure that a rejected credential value stands for.
pub open spec fn credential_failure(part: CredentialPart) -> DownloadFailure {
    match part {
        CredentialPart::Key => DownloadFailure::InvalidKey,
        CredentialPart::Host => DownloadFailure::InvalidHost,
    }
}

/// Plans the resolve call. Where a credential value does not encode as a
/// header value, the key looked at first, no call is to be made and the
/// error says which; else the call is the resolve call for the reference.
pub fn plan_resolve(api_key: &str, api_host: &str, reference: &str) -> (plan: Result<
    HttpCall,
    DownloadError,
>)
    ensures
        match rejected_credential(api_key@, api_host@) {
            Some(part) => plan matches Err(e) && e.failure == credential_failure(part),
            None => plan matches Ok(call) && call@ == resolve_call(
                api_key@,
                api_host@,
                reference@,
            ),
        },
{
    match check_credentials(api_key, api_host) {
        Err(e) => {
            let failure = match e.0 {
                CredentialPart::Key => DownloadFailure::InvalidKey,
                CredentialPart::Host => DownloadFailure::InvalidHost,
            };
            Err(DownloadError { failure, detail: e.1 })
        },
        Ok(()) => {
            let headers = credential_header_fields(api_key, api_host);
            let query: Vec<(String, String)> = Vec::new();
            assert(crate::model::pairs_view(query@) =~= seq![]);
            Ok(HttpCall { url: reference.to_owned(), headers, query })
        },
    }
}

/// Concludes the resolve call from what came back: the retrieve call for
/// the first location listed, or why there is none.
pub fn conclude_resolve(reply: ResolveReply) -> (next: Result<HttpCall, DownloadError>)
    ensures
        match resolve_outcome(reply@) {
            Ok(location) => next matches Ok(call) && call@ == retrieve_call(location),
            Err(error) => next matches Err(e) && e@ == error,
        },
{
    match reply {
        ResolveReply::NoResponse { cause } => Err(
            DownloadError { failure: DownloadFailure::ResolveFailed, detail: cause },
        ),
        ResolveReply::Answered { status, links } => {
            if !answered_with_success(&status) {
                Err(DownloadError { failure: DownloadFailure::ResolveRejected, detail: status.line })
            } else {
                match links {
                    Err(cause) => Err(
                        DownloadError { failure: DownloadFailure::ResolveUnreadable, detail: cause },
                    ),
                    Ok(list) => {
                        if list.len() == 0 {
                            Err(
                                DownloadError {
                                    failure: DownloadFailure::NoLinks,
                                    detail: String::new(),
                                },
                            )
                        } else {
                            let headers: Vec<(String, String)> = Vec::new();
                            let query: Vec<(String, String)> = Vec::new();
                            assert(crate::model::pairs_view(query@) =~= seq![]);
                            Ok(HttpCall { url: list[0].clone(), headers, query })
                        }
                    },
                }
            }
        },
    }
}

/// Concludes the retrieve call from what came back: the bytes of the file,
/// or why there are none.
pub fn conclude_retrieve(reply: RetrieveReply) -> (fetched: Result<Vec<u8>, DownloadError>)
    ensures
        match retrieve_outcome(reply@) {
            Ok(bytes) => fetched matches Ok(payload) && payload@ == bytes,
            Err(error) => fetched matches Err(e) && e@ == error,
        },
{
    match reply {
        RetrieveReply::NoResponse { cause } => Err(
            DownloadError { failure: DownloadFailure::RetrieveFailed, detail: cause },
        ),
        RetrieveReply::Answered { status, body } => {
            if !answered_with_success(&status) {
                Err(DownloadError { failure: DownloadFailure::RetrieveRejected, detail: status.line })
            } else {
                match body {
                    Err(cause) => Err(
                        DownloadError { failure: DownloadFailure::RetrieveUnreadable, detail: cause },
                    ),
                    Ok(bytes) => Ok(bytes),
                }
            }
        },
    }
}

} // verus!
