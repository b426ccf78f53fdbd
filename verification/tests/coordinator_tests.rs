use ebook_packager::archive::{EntryFate, Packed};
use ebook_packager::coordinator::{
    collect_outcomes, start, AfterPrompt, AfterSearch, Delivery, DownloadPhase, SavePhase,
    SearchPhase,
};
use ebook_packager::downloads::{select_downloads, DownloadJob, Fetched};
use ebook_packager::fetcher::{
    conclude_resolve, conclude_retrieve, plan_resolve, ResolveReply, RetrieveReply,
};
use ebook_packager::model::{
    ArchiveEntry, BookOutcome, BookRequest, CredentialPart, DownloadError, DownloadFailure,
    HttpStatus, SearchCandidate, Status,
};
use ebook_packager::report::{BatchError, Report};
use ebook_packager::searcher::SearchReply;
use std::io::{Cursor, Read};

const HOST: &str = "annas-archive-api.p.rapidapi.com";

fn request(title: &str, author: &str, year: &str) -> BookRequest {
    BookRequest { title: title.to_string(), author: author.to_string(), year: year.to_string() }
}

fn hit(book: &BookRequest, id: &str) -> SearchReply {
    SearchReply::Answered {
        status: ok(),
        candidates: Some(vec![SearchCandidate {
            title: book.title.clone(),
            author: book.author.clone(),
            year: book.year.clone(),
            content_id: id.to_string(),
            source: HOST.to_string(),
        }]),
    }
}

fn miss() -> SearchReply {
    SearchReply::Answered { status: ok(), candidates: Some(vec![]) }
}

fn ok() -> HttpStatus {
    HttpStatus { code: 200, line: "200 OK".to_string() }
}

fn not_found() -> HttpStatus {
    HttpStatus { code: 404, line: "404 Not Found".to_string() }
}

fn reference(id: &str) -> String {
    format!("https://{}/download?md5={}", HOST, id)
}

fn found(book: BookRequest, id: &str) -> BookOutcome {
    BookOutcome { request: book, status: Status::Found, retrieval_ref: Some(reference(id)) }
}

fn with_status(book: BookRequest, status: Status) -> BookOutcome {
    BookOutcome { request: book, status, retrieval_ref: None }
}

fn three_books() -> Vec<BookRequest> {
    vec![
        request("Dune", "Frank Herbert", "1965"),
        request("Emma", "Jane Austen", "1815"),
        request("Ulysses", "James Joyce", "1922"),
    ]
}

fn searching(books: Vec<BookRequest>) -> SearchPhase {
    start(Some("secret".to_string()), HOST.to_string(), books).unwrap()
}

fn asking(books: Vec<BookRequest>, replies: Vec<SearchReply>) -> SavePhase {
    match searching(books).conclude(&replies) {
        AfterSearch::AskDestination(phase) => phase,
        AfterSearch::Finished(report) => panic!("finished early: {:?}", report),
    }
}

fn downloading(books: Vec<BookRequest>, replies: Vec<SearchReply>) -> DownloadPhase {
    match asking(books, replies).answer(Some("\"/tmp/ebooks.zip\"".to_string())) {
        AfterPrompt::Download(phase) => phase,
        AfterPrompt::Finished(report) => panic!("finished early: {:?}", report),
    }
}

fn fetch(phase: &DownloadPhase, job: &DownloadJob, second: RetrieveReply) -> Fetched {
    let first = plan_resolve(phase.api_key(), phase.api_host(), &job.reference)?;
    assert_eq!(first.url, job.reference);
    let links = vec![format!("https://files.example/{}", job.position)];
    let next = conclude_resolve(ResolveReply::Answered { status: ok(), links: Ok(links) })?;
    assert_eq!(next.url, format!("https://files.example/{}", job.position));
    conclude_retrieve(second)
}

fn bytes(payload: &[u8]) -> RetrieveReply {
    RetrieveReply::Answered { status: ok(), body: Ok(payload.to_vec()) }
}

fn members(archive: &[u8]) -> Vec<(String, Vec<u8>)> {
    let mut reader = zip::ZipArchive::new(Cursor::new(archive.to_vec())).unwrap();
    let mut found = Vec::new();
    for index in 0..reader.len() {
        let mut member = reader.by_index(index).unwrap();
        let mut payload = Vec::new();
        member.read_to_end(&mut payload).unwrap();
        found.push((member.name().to_string(), payload));
    }
    found
}

#[test]
fn a_batch_without_a_key_is_refused() {
    assert_eq!(start(None, HOST.to_string(), three_books()), Err(BatchError::MissingKey));
    assert_eq!(start(None, HOST.to_string(), vec![]), Err(BatchError::MissingKey));
}

#[test]
fn a_batch_with_an_empty_key_is_refused() {
    assert_eq!(
        start(Some(String::new()), HOST.to_string(), three_books()),
        Err(BatchError::EmptyKey)
    );
    assert_eq!(start(Some(String::new()), HOST.to_string(), vec![]), Err(BatchError::EmptyKey));
}

#[test]
fn an_empty_batch_is_refused() {
    assert_eq!(
        start(Some("secret".to_string()), HOST.to_string(), vec![]),
        Err(BatchError::EmptyBatch)
    );
}

#[test]
fn an_admitted_batch_keeps_key_host_and_requests() {
    let phase = searching(three_books());
    assert_eq!(phase.api_key(), "secret");
    assert_eq!(phase.api_host(), HOST);
    assert_eq!(phase.requests(), &three_books());
}

#[test]
fn there_is_one_search_call_per_request_in_order() {
    let plans = searching(three_books()).calls();
    assert_eq!(plans.len(), 3);
    let queries: Vec<String> =
        plans.iter().map(|plan| plan.as_ref().unwrap().query[0].1.clone()).collect();
    assert_eq!(
        queries,
        vec!["Dune Frank Herbert 1965", "Emma Jane Austen 1815", "Ulysses James Joyce 1922"]
    );
}

#[test]
fn credentials_that_do_not_encode_plan_no_call_at_all() {
    let phase = start(Some("se\ncret".to_string()), HOST.to_string(), three_books()).unwrap();
    assert_eq!(
        phase.calls(),
        vec![Err(CredentialPart::Key), Err(CredentialPart::Key), Err(CredentialPart::Key)]
    );
    let replies = vec![
        SearchReply::NotSent(CredentialPart::Key),
        SearchReply::NotSent(CredentialPart::Key),
        SearchReply::NotSent(CredentialPart::Key),
    ];
    match phase.conclude(&replies) {
        AfterSearch::Finished(report) => assert_eq!(
            report.render(),
            "No books found to download.\n\nSearch Results:\n\
             \u{2022} Dune by Frank Herbert (1965): Invalid API Key\n\
             \u{2022} Emma by Jane Austen (1815): Invalid API Key\n\
             \u{2022} Ulysses by James Joyce (1922): Invalid API Key\n"
        ),
        other => panic!("went on: {:?}", other),
    }
}

#[test]
fn there_is_one_outcome_per_request_in_the_same_order() {
    let books = three_books();
    let replies = vec![miss(), hit(&books[1], "e"), SearchReply::NoResponse];
    let outcomes = collect_outcomes(HOST, &books, &replies);
    assert_eq!(
        outcomes,
        vec![
            with_status(request("Dune", "Frank Herbert", "1965"), Status::NotFound),
            found(request("Emma", "Jane Austen", "1815"), "e"),
            with_status(request("Ulysses", "James Joyce", "1922"), Status::SearchError(None)),
        ]
    );
}

#[test]
fn equal_requests_are_not_merged() {
    let books = vec![request("Dune", "Frank Herbert", "1965"), request("Dune", "Frank Herbert", "1965")];
    let replies = vec![hit(&books[0], "a"), hit(&books[1], "a")];
    let outcomes = collect_outcomes(HOST, &books, &replies);
    assert_eq!(outcomes.len(), 2);
    assert_eq!(outcomes[0], outcomes[1]);
    assert_eq!(select_downloads(&outcomes).len(), 2);
}

#[test]
fn only_found_outcomes_are_selected_for_download() {
    let outcomes = vec![
        with_status(request("a", "a", "1"), Status::NotFound),
        found(request("b", "b", "2"), "bb"),
        with_status(request("c", "c", "3"), Status::ParseError),
        with_status(request("d", "d", "4"), Status::Found),
        BookOutcome {
            request: request("e", "e", "5"),
            status: Status::SearchError(None),
            retrieval_ref: Some(reference("ee")),
        },
        found(request("f", "f", "6"), "ff"),
    ];
    assert_eq!(
        select_downloads(&outcomes),
        vec![
            DownloadJob { position: 1, reference: reference("bb") },
            DownloadJob { position: 5, reference: reference("ff") },
        ]
    );
    assert_eq!(select_downloads(&vec![]), vec![]);
}

#[test]
fn a_batch_of_misses_skips_the_download_phase() {
    let replies = vec![miss(), miss(), miss()];
    match searching(three_books()).conclude(&replies) {
        AfterSearch::Finished(report) => {
            assert_eq!(
                report,
                Report::NothingFound {
                    outcomes: vec![
                        with_status(request("Dune", "Frank Herbert", "1965"), Status::NotFound),
                        with_status(request("Emma", "Jane Austen", "1815"), Status::NotFound),
                        with_status(request("Ulysses", "James Joyce", "1922"), Status::NotFound),
                    ],
                }
            );
            assert_eq!(
                report.render(),
                "No books found to download.\n\nSearch Results:\n\
                 \u{2022} Dune by Frank Herbert (1965): Not Found\n\
                 \u{2022} Emma by Jane Austen (1815): Not Found\n\
                 \u{2022} Ulysses by James Joyce (1922): Not Found\n"
            );
        },
        other => panic!("went on: {:?}", other),
    }
}

#[test]
fn a_miss_is_not_found_and_is_not_downloaded() {
    let books = three_books();
    let replies = vec![hit(&books[0], "d"), miss(), hit(&books[2], "u")];
    let phase = asking(three_books(), replies);
    assert_eq!(phase.outcomes()[1], with_status(request("Emma", "Jane Austen", "1815"), Status::NotFound));
    assert_eq!(
        phase.jobs(),
        &vec![
            DownloadJob { position: 0, reference: reference("d") },
            DownloadJob { position: 2, reference: reference("u") },
        ]
    );
}

#[test]
fn a_declined_save_ends_the_batch_as_cancelled() {
    let books = three_books();
    let phase = asking(three_books(), vec![hit(&books[0], "d"), miss(), miss()]);
    match phase.answer(None) {
        AfterPrompt::Finished(report) => {
            assert_eq!(report, Report::Cancelled);
            assert_eq!(report.render(), "Save operation was cancelled.");
        },
        other => panic!("went on: {:?}", other),
    }
}

#[test]
fn a_chosen_destination_starts_the_downloads() {
    let books = three_books();
    let phase = downloading(three_books(), vec![miss(), hit(&books[1], "e"), miss()]);
    assert_eq!(phase.api_key(), "secret");
    assert_eq!(phase.api_host(), HOST);
    assert_eq!(phase.destination(), "\"/tmp/ebooks.zip\"");
    assert_eq!(phase.jobs(), &vec![DownloadJob { position: 1, reference: reference("e") }]);
}

#[test]
fn a_single_match_is_found_downloaded_and_stored_under_its_name() {
    let book = request("Dune", "Frank Herbert", "1965");
    let phase = downloading(vec![request("Dune", "Frank Herbert", "1965")], vec![hit(&book, "d")]);
    let results: Vec<Fetched> =
        phase.jobs().iter().map(|job| fetch(&phase, job, bytes(b"dune"))).collect();
    let settled = phase.settle(results);
    assert_eq!(settled.failed_downloads(), 0);
    assert_eq!(settled.outcomes(), &vec![found(request("Dune", "Frank Herbert", "1965"), "d")]);
    assert_eq!(
        settled.entries(),
        &vec![ArchiveEntry {
            file_name: "Frank Herbert - 1965 - Dune.epub".to_string(),
            payload: b"dune".to_vec(),
        }]
    );
    let delivery = settled.package().unwrap();
    assert_eq!(delivery.fates, vec![EntryFate::Stored]);
    assert_eq!(
        members(&delivery.archive),
        vec![("Frank Herbert - 1965 - Dune.epub".to_string(), b"dune".to_vec())]
    );
    assert_eq!(
        delivery.report.render(),
        "\u{2713} Successfully saved 1 books to \"/tmp/ebooks.zip\""
    );
}

#[test]
fn one_failed_retrieve_of_three_leaves_two_members() {
    let books = three_books();
    let replies = vec![hit(&books[0], "d"), hit(&books[1], "e"), hit(&books[2], "u")];
    let phase = downloading(three_books(), replies);
    let seconds = vec![
        bytes(b"dune"),
        RetrieveReply::Answered { status: not_found(), body: Ok(b"<html>".to_vec()) },
        bytes(b"ulysses"),
    ];
    let results: Vec<Fetched> = phase
        .jobs()
        .iter()
        .zip(seconds)
        .map(|(job, second)| fetch(&phase, job, second))
        .collect();
    let settled = phase.settle(results);
    assert_eq!(settled.failed_downloads(), 1);
    assert_eq!(settled.entries().len(), 2);
    let Delivery { archive, report, outcomes, fates } = settled.package().unwrap();
    assert_eq!(fates, vec![EntryFate::Stored, EntryFate::Stored]);
    assert_eq!(
        members(&archive),
        vec![
            ("Frank Herbert - 1965 - Dune.epub".to_string(), b"dune".to_vec()),
            ("James Joyce - 1922 - Ulysses.epub".to_string(), b"ulysses".to_vec()),
        ]
    );
    let emma_failed = BookOutcome {
        request: request("Emma", "Jane Austen", "1815"),
        status: Status::DownloadError(DownloadError {
            failure: DownloadFailure::RetrieveRejected,
            detail: "404 Not Found".to_string(),
        }),
        retrieval_ref: Some(reference("e")),
    };
    assert_eq!(
        report,
        Report::Saved {
            destination: "\"/tmp/ebooks.zip\"".to_string(),
            succeeded: 2,
            failed: 1,
            others: vec![emma_failed],
        }
    );
    assert_eq!(
        report.render(),
        "Package saved to \"/tmp/ebooks.zip\"\n\n\u{2713} 2 books downloaded successfully\n\u{2717} 1 books failed to download\
         \n\nNot downloaded:\n\
         \u{2022} Emma by Jane Austen (1815): Download Error: Failed to download file from final URL: 404 Not Found\n"
    );
    assert_eq!(outcomes.len(), 3);
    assert_eq!(outcomes[0].status, Status::Found);
    assert_eq!(
        outcomes[1],
        BookOutcome {
            request: request("Emma", "Jane Austen", "1815"),
            status: Status::DownloadError(DownloadError {
                failure: DownloadFailure::RetrieveRejected,
                detail: "404 Not Found".to_string(),
            }),
            retrieval_ref: Some(reference("e")),
        }
    );
    assert_eq!(outcomes[2].status, Status::Found);
}

#[test]
fn an_entry_exists_exactly_for_found_outcomes_whose_download_returned_bytes() {
    let books = three_books();
    let replies = vec![hit(&books[0], "d"), SearchReply::NoResponse, hit(&books[2], "u")];
    let phase = downloading(three_books(), replies);
    let results: Vec<Fetched> = vec![
        Err(DownloadError { failure: DownloadFailure::NoLinks, detail: String::new() }),
        Ok(b"ulysses".to_vec()),
    ];
    let settled = phase.settle(results);
    assert_eq!(
        settled.entries(),
        &vec![ArchiveEntry {
            file_name: "James Joyce - 1922 - Ulysses.epub".to_string(),
            payload: b"ulysses".to_vec(),
        }]
    );
    assert_eq!(settled.failed_downloads(), 1);
    let statuses: Vec<&Status> = settled.outcomes().iter().map(|o| &o.status).collect();
    assert_eq!(
        statuses,
        vec![
            &Status::DownloadError(DownloadError {
                failure: DownloadFailure::NoLinks,
                detail: String::new(),
            }),
            &Status::SearchError(None),
            &Status::Found,
        ]
    );
}

#[test]
fn all_downloads_failing_still_completes_an_empty_container() {
    let books = three_books();
    let phase = downloading(three_books(), vec![hit(&books[0], "d"), miss(), miss()]);
    let results: Vec<Fetched> = vec![Err(DownloadError {
        failure: DownloadFailure::ResolveFailed,
        detail: "connection refused".to_string(),
    })];
    let delivery = phase.settle(results).package().unwrap();
    assert_eq!(delivery.fates, vec![]);
    assert_eq!(members(&delivery.archive), vec![]);
    assert_eq!(
        delivery.report.render(),
        "Package saved to \"/tmp/ebooks.zip\"\n\n\u{2713} 0 books downloaded successfully\n\u{2717} 1 books failed to download\
         \n\nNot downloaded:\n\
         \u{2022} Dune by Frank Herbert (1965): Download Error: Failed to get download link: connection refused\n\
         \u{2022} Emma by Jane Austen (1815): Not Found\n\
         \u{2022} Ulysses by James Joyce (1922): Not Found\n"
    );
}

#[test]
fn entries_with_the_same_name_collide_and_the_later_one_is_counted_as_failed() {
    let books = vec![request("Dune", "Frank Herbert", "1965"), request("Dune ", "Frank Herbert", "1965")];
    let replies = vec![hit(&books[0], "a"), hit(&books[1], "b")];
    let phase = downloading(books, replies);
    let results: Vec<Fetched> = vec![Ok(b"first".to_vec()), Ok(b"second".to_vec())];
    let delivery = phase.settle(results).package().unwrap();
    assert_eq!(delivery.fates, vec![EntryFate::Stored, EntryFate::NotOpened]);
    assert_eq!(
        members(&delivery.archive),
        vec![("Frank Herbert - 1965 - Dune.epub".to_string(), b"first".to_vec())]
    );
    assert_eq!(
        delivery.report,
        Report::Saved {
            destination: "\"/tmp/ebooks.zip\"".to_string(),
            succeeded: 1,
            failed: 1,
            others: vec![],
        }
    );
}

#[test]
fn a_saved_batch_lists_the_items_not_found_beside_the_counts() {
    let books = three_books();
    let replies = vec![
        miss(),
        hit(&books[1], "e"),
        SearchReply::Answered {
            status: HttpStatus { code: 503, line: "503 Service Unavailable".to_string() },
            candidates: None,
        },
    ];
    let phase = downloading(three_books(), replies);
    let delivery = phase.settle(vec![Ok(b"emma".to_vec())]).package().unwrap();
    assert_eq!(
        members(&delivery.archive),
        vec![("Jane Austen - 1815 - Emma.epub".to_string(), b"emma".to_vec())]
    );
    assert_eq!(
        delivery.report,
        Report::Saved {
            destination: "\"/tmp/ebooks.zip\"".to_string(),
            succeeded: 1,
            failed: 0,
            others: vec![
                with_status(request("Dune", "Frank Herbert", "1965"), Status::NotFound),
                with_status(
                    request("Ulysses", "James Joyce", "1922"),
                    Status::SearchError(Some("503 Service Unavailable".to_string())),
                ),
            ],
        }
    );
    assert_eq!(
        delivery.report.render(),
        "\u{2713} Successfully saved 1 books to \"/tmp/ebooks.zip\"\
         \n\nNot downloaded:\n\
         \u{2022} Dune by Frank Herbert (1965): Not Found\n\
         \u{2022} Ulysses by James Joyce (1922): Search Failed: 503 Service Unavailable\n"
    );
    assert_eq!(delivery.outcomes.len(), 3);
    assert_eq!(delivery.outcomes[0].status, Status::NotFound);
    assert_eq!(delivery.outcomes[1].status, Status::Found);
}

#[test]
fn a_container_that_was_not_completed_ends_the_batch() {
    let books = three_books();
    let phase = downloading(three_books(), vec![hit(&books[0], "d"), miss(), miss()]);
    let settled = phase.settle(vec![Ok(b"dune".to_vec())]);
    let packed = Packed { fates: vec![EntryFate::Stored], archive: Err("disk full".to_string()) };
    let error = settled.deliver(packed).unwrap_err();
    assert_eq!(error, BatchError::CannotFinalize("disk full".to_string()));
    assert_eq!(error.message(), "Failed to finalize zip file: disk full");
}

#[test]
fn the_counts_follow_from_the_fates_and_the_failed_downloads() {
    let books = three_books();
    let replies = vec![hit(&books[0], "d"), hit(&books[1], "e"), hit(&books[2], "u")];
    let phase = downloading(three_books(), replies);
    let results: Vec<Fetched> = vec![
        Ok(b"dune".to_vec()),
        Err(DownloadError { failure: DownloadFailure::NoLinks, detail: String::new() }),
        Ok(b"ulysses".to_vec()),
    ];
    let settled = phase.settle(results);
    let packed = Packed {
        fates: vec![EntryFate::Stored, EntryFate::NotOpened],
        archive: Ok(vec![1, 2, 3]),
    };
    let delivery = settled.deliver(packed).unwrap();
    assert_eq!(delivery.archive, vec![1, 2, 3]);
    assert_eq!(delivery.fates, vec![EntryFate::Stored, EntryFate::NotOpened]);
    match delivery.report {
        Report::Saved { succeeded, failed, ref others, .. } => {
            assert_eq!(succeeded, 1);
            assert_eq!(failed, 2);
            assert_eq!(succeeded + failed, 3);
            assert_eq!(others.len(), 1);
        },
        ref other => panic!("not saved: {:?}", other),
    }
}

#[test]
fn packaging_is_delivering_what_the_archiver_made() {
    let books = three_books();
    let phase = downloading(three_books(), vec![hit(&books[0], "d"), miss(), miss()]);
    let delivery = phase.settle(vec![Ok(b"dune".to_vec())]).package().unwrap();
    assert_eq!(delivery.fates, vec![EntryFate::Stored]);
    match delivery.report {
        Report::Saved { succeeded, failed, .. } => assert_eq!((succeeded, failed), (1, 0)),
        ref other => panic!("not saved: {:?}", other),
    }
}
