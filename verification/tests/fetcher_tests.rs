use ebook_packager::fetcher::{
    conclude_resolve, conclude_retrieve, plan_resolve, ResolveReply, RetrieveReply,
};
use ebook_packager::model::{DownloadError, DownloadFailure, HttpCall, HttpStatus};

fn status(code: u16, line: &str) -> HttpStatus {
    HttpStatus { code, line: line.to_string() }
}

fn failure(failure: DownloadFailure, detail: &str) -> DownloadError {
    DownloadError { failure, detail: detail.to_string() }
}

fn pair(name: &str, value: &str) -> (String, String) {
    (name.to_string(), value.to_string())
}

#[test]
fn the_resolve_call_gets_the_reference_with_the_credentials() {
    let call = plan_resolve("secret", "host.example", "https://host.example/download?md5=abc");
    assert_eq!(
        call,
        Ok(HttpCall {
            url: "https://host.example/download?md5=abc".to_string(),
            headers: vec![pair("x-rapidapi-key", "secret"), pair("x-rapidapi-host", "host.example")],
            query: vec![],
        })
    );
}

#[test]
fn a_key_that_does_not_encode_fails_the_download() {
    let error = plan_resolve("se\ncret", "ho\nst", "ref").unwrap_err();
    assert_eq!(error.failure, DownloadFailure::InvalidKey);
    assert_eq!(error.message(), "Invalid API key header: failed to parse header value");
}

#[test]
fn a_host_that_does_not_encode_fails_the_download() {
    let error = plan_resolve("secret", "ho\nst", "ref").unwrap_err();
    assert_eq!(error.failure, DownloadFailure::InvalidHost);
    assert_eq!(error.message(), "Invalid API host header: failed to parse header value");
}

#[test]
fn a_resolve_call_that_did_not_complete_fails() {
    let reply = ResolveReply::NoResponse { cause: "connection refused".to_string() };
    assert_eq!(
        conclude_resolve(reply),
        Err(failure(DownloadFailure::ResolveFailed, "connection refused"))
    );
}

#[test]
fn a_resolve_status_other_than_success_fails() {
    let reply = ResolveReply::Answered {
        status: status(403, "403 Forbidden"),
        links: Ok(vec!["https://files.example/a.epub".to_string()]),
    };
    assert_eq!(
        conclude_resolve(reply),
        Err(failure(DownloadFailure::ResolveRejected, "403 Forbidden"))
    );
}

#[test]
fn a_resolve_body_that_is_no_list_fails() {
    let reply = ResolveReply::Answered {
        status: status(200, "200 OK"),
        links: Err("expected a sequence".to_string()),
    };
    assert_eq!(
        conclude_resolve(reply),
        Err(failure(DownloadFailure::ResolveUnreadable, "expected a sequence"))
    );
}

#[test]
fn an_empty_list_of_locations_fails() {
    let reply = ResolveReply::Answered { status: status(200, "200 OK"), links: Ok(vec![]) };
    assert_eq!(conclude_resolve(reply), Err(failure(DownloadFailure::NoLinks, "")));
}

#[test]
fn the_first_location_is_retrieved_and_no_other() {
    let reply = ResolveReply::Answered {
        status: status(200, "200 OK"),
        links: Ok(vec![
            "https://files.example/first.epub".to_string(),
            "https://files.example/second.epub".to_string(),
        ]),
    };
    assert_eq!(
        conclude_resolve(reply),
        Ok(HttpCall {
            url: "https://files.example/first.epub".to_string(),
            headers: vec![],
            query: vec![],
        })
    );
}

#[test]
fn a_retrieve_call_that_did_not_complete_fails() {
    let reply = RetrieveReply::NoResponse { cause: "timed out".to_string() };
    assert_eq!(
        conclude_retrieve(reply),
        Err(failure(DownloadFailure::RetrieveFailed, "timed out"))
    );
}

#[test]
fn a_retrieve_status_other_than_success_fails() {
    let reply = RetrieveReply::Answered {
        status: status(404, "404 Not Found"),
        body: Ok(vec![1, 2, 3]),
    };
    assert_eq!(
        conclude_retrieve(reply),
        Err(failure(DownloadFailure::RetrieveRejected, "404 Not Found"))
    );
}

#[test]
fn unreadable_bytes_fail() {
    let reply = RetrieveReply::Answered {
        status: status(200, "200 OK"),
        body: Err("connection reset".to_string()),
    };
    assert_eq!(
        conclude_retrieve(reply),
        Err(failure(DownloadFailure::RetrieveUnreadable, "connection reset"))
    );
}

#[test]
fn the_bytes_of_a_successful_response_are_the_file() {
    let reply =
        RetrieveReply::Answered { status: status(200, "200 OK"), body: Ok(vec![80, 75, 3, 4]) };
    assert_eq!(conclude_retrieve(reply), Ok(vec![80, 75, 3, 4]));
    let reply = RetrieveReply::Answered { status: status(206, "206 Partial Content"), body: Ok(vec![]) };
    assert_eq!(conclude_retrieve(reply), Ok(vec![]));
}

#[test]
fn each_failure_has_its_words() {
    let cases = [
        (DownloadFailure::InvalidKey, "Invalid API key header: x"),
        (DownloadFailure::InvalidHost, "Invalid API host header: x"),
        (DownloadFailure::ResolveFailed, "Failed to get download link: x"),
        (DownloadFailure::ResolveRejected, "Download link request failed: x"),
        (DownloadFailure::ResolveUnreadable, "Failed to parse download links: x"),
        (DownloadFailure::RetrieveFailed, "Failed to download file: x"),
        (DownloadFailure::RetrieveRejected, "Failed to download file from final URL: x"),
        (DownloadFailure::RetrieveUnreadable, "Failed to read file bytes: x"),
    ];
    for (kind, words) in cases {
        assert_eq!(failure(kind, "x").message(), words);
    }
    assert_eq!(
        failure(DownloadFailure::NoLinks, "").message(),
        "API did not return any final download URLs."
    );
}
