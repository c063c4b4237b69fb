use gbrowse::address::{resolve, Address};
use gbrowse::document::DocumentBlock;
use gbrowse::fetch::{
    advance, process_payload, FetchError, FetchOutcome, FetchStep, Status, TransportEvent,
    TransportResponse,
};
use gbrowse::history::History;
use gbrowse::session::{
    deliver_outcome, Gbrowse, ReceiveEvent, SessionError, DEFAULT_STARTING_PAGE,
};

#[test]
fn qualified_address_is_resolution_invariant() {
    let a = resolve("gemini://example.org/docs/page.gmi", None).unwrap();
    assert_eq!(a.to_text(), "gemini://example.org/docs/page.gmi");

    let ctx = Address::parse_qualified("gemini://other.org/dir/").unwrap();
    let b = resolve("gemini://example.org/docs/page.gmi", Some(&ctx)).unwrap();
    assert_eq!(b.to_text(), "gemini://example.org/docs/page.gmi");
}

#[test]
fn relative_target_against_document_drops_terminal_segment() {
    let ctx = Address::parse_qualified("gemini://example.org/docs/page.gmi").unwrap();
    let a = resolve("sibling.gmi", Some(&ctx)).unwrap();
    assert_eq!(a.to_text(), "gemini://example.org/docs/sibling.gmi");
}

#[test]
fn relative_target_against_directory_keeps_path() {
    let ctx = Address::parse_qualified("gemini://example.org/docs").unwrap();
    let a = resolve("sibling.gmi", Some(&ctx)).unwrap();
    assert_eq!(a.to_text(), "gemini://example.org/docs/sibling.gmi");

    let slash = Address::parse_qualified("gemini://example.org/docs/").unwrap();
    let b = resolve("sibling.gmi", Some(&slash)).unwrap();
    assert_eq!(b.to_text(), "gemini://example.org/docs/sibling.gmi");
}

#[test]
fn absolute_target_replaces_path() {
    let ctx = Address::parse_qualified("gemini://example.org/docs/page.gmi").unwrap();
    let a = resolve("/root.gmi", Some(&ctx)).unwrap();
    assert_eq!(a.to_text(), "gemini://example.org/root.gmi");
}

#[test]
fn relative_target_against_bare_host() {
    let ctx = Address::parse_qualified("gemini://example.org").unwrap();
    let a = resolve("page.gmi", Some(&ctx)).unwrap();
    assert_eq!(a.to_text(), "gemini://example.org/page.gmi");
}

#[test]
fn relative_target_without_context_fails() {
    let e = resolve("sibling.gmi", None).unwrap_err();
    assert_eq!(e.target, "sibling.gmi");
}

#[test]
fn unqualified_text_is_not_parsed() {
    assert!(Address::parse_qualified("no scheme here").is_none());
    assert!(Address::parse_qualified("/just/a/path").is_none());
    assert!(Address::parse_qualified("://nohost").is_none());
}

#[test]
fn scheme_is_extracted() {
    let a = Address::parse_qualified("https://example.org/x").unwrap();
    assert_eq!(a.scheme(), "https");
    let g = Address::parse_qualified("gemini://example.org").unwrap();
    assert_eq!(g.scheme(), "gemini");
}

#[test]
fn history_push_pop_restores_previous() {
    let mut h = History::new();
    h.push(String::from("gemini://a.org/"));
    h.push(String::from("gemini://b.org/"));
    assert_eq!(h.len(), 2);
    let popped = h.pop().unwrap();
    assert_eq!(popped, "gemini://b.org/");
    assert_eq!(h.peek_previous().unwrap(), "gemini://a.org/");
    assert_eq!(h.len(), 1);
}

#[test]
fn empty_history_pops_nothing() {
    let mut h = History::new();
    assert!(h.pop().is_none());
    assert!(h.peek_previous().is_none());
}

#[test]
fn success_payload_is_decoded_and_parsed() {
    let outcome = process_payload(b"# Hello".to_vec());
    assert_eq!(
        outcome,
        FetchOutcome::Success(vec![DocumentBlock::Heading(String::from("Hello"))])
    );
}

#[test]
fn payload_with_every_block_kind() {
    let text = "# A\n\nhello\n=> /x label\n* item\n> quote\n```rust\ncode\n```";
    let outcome = process_payload(text.as_bytes().to_vec());
    assert_eq!(
        outcome,
        FetchOutcome::Success(vec![
            DocumentBlock::Heading(String::from("A")),
            DocumentBlock::EmptyLine,
            DocumentBlock::Text(String::from("hello")),
            DocumentBlock::Link(String::from("/x"), Some(String::from("label"))),
            DocumentBlock::ListItem(String::from("item")),
            DocumentBlock::Blockquote(String::from("quote")),
            DocumentBlock::Preformatted(String::from("code\n"), Some(String::from("rust"))),
        ])
    );
}

#[test]
fn invalid_utf8_payload_is_a_decoding_failure() {
    let outcome = process_payload(vec![0xff, 0xfe, 0x20]);
    match outcome {
        FetchOutcome::Failure(FetchError::Decoding(_)) => {}
        other => panic!("expected a decoding failure, got {:?}", other),
    }
}

#[test]
fn lone_marker_line_is_an_unsupported_document() {
    let outcome = process_payload(b"fine\n=\nfine".to_vec());
    assert_eq!(outcome, FetchOutcome::Failure(FetchError::UnsupportedDocument));
    let also = process_payload(b"*".to_vec());
    assert_eq!(also, FetchOutcome::Failure(FetchError::UnsupportedDocument));
    let fine = process_payload(b"= not a lone marker".to_vec());
    match fine {
        FetchOutcome::Success(_) => {}
        other => panic!("expected success, got {:?}", other),
    }
}

#[test]
fn redirect_then_success_yields_final_payload() {
    // one redirect followed by one success: two requests in all
    let step = advance(TransportEvent::Response(TransportResponse {
        status: Status::Redirect(0),
        meta: String::from("gemini://example.org/new.gmi"),
        data: vec![],
    }));
    let next = match step {
        FetchStep::Follow(a) => a,
        FetchStep::Finish(o) => panic!("expected a follow, got {:?}", o),
    };
    assert_eq!(next.to_text(), "gemini://example.org/new.gmi");

    let done = advance(TransportEvent::Response(TransportResponse {
        status: Status::Success(0),
        meta: String::from("text/gemini"),
        data: b"# Hello".to_vec(),
    }));
    match done {
        FetchStep::Finish(o) => assert_eq!(
            o,
            FetchOutcome::Success(vec![DocumentBlock::Heading(String::from("Hello"))])
        ),
        FetchStep::Follow(_) => panic!("expected the fetch to finish"),
    }
}

#[test]
fn unresolvable_redirect_target_is_a_failure() {
    let step = advance(TransportEvent::Response(TransportResponse {
        status: Status::Redirect(1),
        meta: String::from("not a qualified address"),
        data: vec![],
    }));
    match step {
        FetchStep::Finish(o) => assert_eq!(
            o,
            FetchOutcome::Failure(FetchError::BadRedirect(String::from(
                "not a qualified address"
            )))
        ),
        FetchStep::Follow(_) => panic!("expected the fetch to finish"),
    }
}

#[test]
fn terminal_status_fails_without_retry() {
    let step = advance(TransportEvent::Response(TransportResponse {
        status: Status::TemporaryFailure(1),
        meta: String::from("slow down"),
        data: vec![],
    }));
    match step {
        FetchStep::Finish(o) => assert_eq!(
            o,
            FetchOutcome::Failure(FetchError::UnknownStatus(Status::TemporaryFailure(1)))
        ),
        FetchStep::Follow(_) => panic!("expected the fetch to finish"),
    }
}

#[test]
fn transport_failure_is_surfaced() {
    let step = advance(TransportEvent::Failed(String::from("connection refused")));
    match step {
        FetchStep::Finish(o) => assert_eq!(
            o,
            FetchOutcome::Failure(FetchError::Transport(String::from("connection refused")))
        ),
        FetchStep::Follow(_) => panic!("expected the fetch to finish"),
    }
}

#[test]
fn session_starts_on_the_default_page() {
    let b = Gbrowse::new(None);
    assert_eq!(b.url, DEFAULT_STARTING_PAGE);
    assert!(b.content.is_none());
    assert!(b.error.is_none());
    assert!(!b.loading);
}

#[test]
fn session_starts_on_the_named_page() {
    let b = Gbrowse::new(Some(String::from("gemini://example.org/")));
    assert_eq!(b.url, "gemini://example.org/");
}

#[test]
fn poll_yields_an_outcome_exactly_once() {
    let mut b = Gbrowse::new(None);
    assert!(b.get_content().is_none());

    let job = b.change_site("gemini://example.org/docs/page.gmi", false);
    assert!(b.loading);
    assert_eq!(b.url, "gemini://example.org/docs/page.gmi");
    let job = job.unwrap();
    assert_eq!(job.address.to_text(), "gemini://example.org/docs/page.gmi");

    let blocks = vec![DocumentBlock::Text(String::from("hi"))];
    deliver_outcome(job, FetchOutcome::Success(blocks.clone()));

    assert_eq!(b.get_content(), Some(blocks));
    assert!(!b.loading);
    assert!(b.get_content().is_none());
    assert!(b.get_content().is_none());
}

#[test]
fn delivered_failure_becomes_the_session_error() {
    let mut b = Gbrowse::new(None);
    let job = b.change_site("gemini://example.org/", false).unwrap();
    deliver_outcome(
        job,
        FetchOutcome::Failure(FetchError::Transport(String::from("no route"))),
    );
    assert!(b.get_content().is_none());
    assert!(!b.loading);
    assert_eq!(
        b.error,
        Some(SessionError::Fetch(FetchError::Transport(String::from(
            "no route"
        ))))
    );
}

#[test]
fn lost_worker_is_reported() {
    let mut b = Gbrowse::new(None);
    b.loading = true;
    let r = b.absorb(ReceiveEvent::Disconnected);
    assert!(r.is_none());
    assert!(!b.loading);
    assert_eq!(b.error, Some(SessionError::ChannelClosed));
}

#[test]
fn empty_poll_changes_nothing() {
    let mut b = Gbrowse::new(None);
    b.loading = true;
    let r = b.absorb(ReceiveEvent::Empty);
    assert!(r.is_none());
    assert!(b.loading);
    assert!(b.error.is_none());
}

#[test]
fn resolution_failure_aborts_navigation() {
    let mut b = Gbrowse::new(Some(String::from("not an address")));
    let job = b.change_site("relative.gmi", false);
    assert!(job.is_none());
    assert!(!b.loading);
    assert_eq!(b.url, "relative.gmi");
    match &b.error {
        Some(SessionError::Resolution(e)) => assert_eq!(e.target, "relative.gmi"),
        other => panic!("expected a resolution error, got {:?}", other),
    }
}

#[test]
fn relative_navigation_resolves_against_the_address_bar() {
    let mut b = Gbrowse::new(Some(String::from("gemini://example.org/docs/page.gmi")));
    let job = b.change_site("sibling.gmi", false).unwrap();
    assert_eq!(b.url, "gemini://example.org/docs/sibling.gmi");
    assert_eq!(job.address.to_text(), "gemini://example.org/docs/sibling.gmi");
}

#[test]
fn going_back_pops_without_pushing() {
    let mut b = Gbrowse::new(None);
    assert!(!b.can_go_back());
    b.change_site("gemini://a.org/one.gmi", false);
    assert!(!b.can_go_back());
    b.change_site("gemini://a.org/two.gmi", false);
    assert!(b.can_go_back());

    let job = b.go_back().unwrap();
    assert_eq!(b.url, "gemini://a.org/one.gmi");
    assert_eq!(job.address.to_text(), "gemini://a.org/one.gmi");
    assert!(b.loading);
    assert!(!b.can_go_back());
}

#[test]
fn going_back_with_a_single_entry_does_nothing() {
    let mut b = Gbrowse::new(None);
    b.change_site("gemini://a.org/only.gmi", false);
    assert!(b.go_back().is_none());
    assert_eq!(b.url, "gemini://a.org/only.gmi");
}
