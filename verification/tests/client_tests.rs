use gemini_crawler::client::{Fetch, FetchEvent, FetchStep, MAX_REDIRECT};
use gemini_crawler::error::{FetchError, Refusal};
use gemini_crawler::resource::Resource;
use gemini_crawler::response::GeminiResponse;

fn start() -> Fetch {
    Fetch::start(Resource::parse("gemini://example.org/0").unwrap())
}

fn received(text: &str) -> FetchEvent {
    FetchEvent::Received(text.to_string())
}

fn failure(step: FetchStep) -> FetchError {
    match step {
        FetchStep::Failed(e) => e,
        other => panic!("unexpected step {:?}", other),
    }
}

fn follow(hops: usize) -> FetchStep {
    let mut step = FetchStep::Request(start());
    let mut i = 0;
    while i < hops {
        step = match step {
            FetchStep::Request(fetch) => {
                assert_eq!(fetch.redirects(), i);
                assert_eq!(fetch.target().as_str(), format!("gemini://example.org/{}", i));
                fetch.advance(received(&format!("31 gemini://example.org/{}\r\n", i + 1)))
            }
            other => return other,
        };
        i += 1;
    }
    step
}

#[test]
fn a_chain_of_max_redirect_hops_succeeds() {
    assert_eq!(MAX_REDIRECT, 256);
    match follow(MAX_REDIRECT) {
        FetchStep::Request(fetch) => {
            assert_eq!(fetch.redirects(), MAX_REDIRECT);
            match fetch.advance(received("20 text/gemini\r\n=> next\r\n")) {
                FetchStep::Done(response) => {
                    assert_eq!(response.url.as_str(), "gemini://example.org/256");
                    assert_eq!(response.gemini_urls()[0].as_str(), "gemini://example.org/next");
                }
                other => panic!("unexpected step {:?}", other),
            }
        }
        other => panic!("unexpected step {:?}", other),
    }
}

#[test]
fn a_chain_of_one_hop_more_fails() {
    assert_eq!(failure(follow(MAX_REDIRECT + 1)), FetchError::RedirectLimitExceeded);
}

#[test]
fn transport_failures_end_the_fetch() {
    assert_eq!(failure(start().advance(FetchEvent::ConnectFailed)), FetchError::ConnectFailure);
    assert_eq!(failure(start().advance(FetchEvent::HandshakeFailed)), FetchError::HandshakeFailure);
    assert_eq!(failure(start().advance(FetchEvent::WriteFailed)), FetchError::WriteFailure);
    assert_eq!(failure(start().advance(FetchEvent::ReadFailed)), FetchError::ReadFailure);
    assert_eq!(failure(start().advance(FetchEvent::TimedOut)), FetchError::StageTimeout);
}

#[test]
fn responses_that_are_no_documents_end_the_fetch() {
    assert_eq!(failure(start().advance(received("garbage"))), FetchError::MalformedStatusLine);
    assert_eq!(failure(start().advance(received("99 x\r\n"))), FetchError::UnknownStatusCode);
    assert_eq!(failure(start().advance(received("20 text/plain\r\nhi"))), FetchError::UnsupportedMediaType);
    assert_eq!(failure(start().advance(received("20 what\r\nhi"))), FetchError::UnsupportedMediaType);
    assert_eq!(failure(start().advance(received("30 nowhere\r\n"))), FetchError::InvalidRedirectTarget);
    assert_eq!(
        failure(start().advance(received("10 name?\r\n"))),
        FetchError::ProtocolLevelFailure(Refusal::Input)
    );
    assert_eq!(
        failure(start().advance(received("40 later\r\n"))),
        FetchError::ProtocolLevelFailure(Refusal::TempFail)
    );
    assert_eq!(
        failure(start().advance(received("50 never\r\n"))),
        FetchError::ProtocolLevelFailure(Refusal::PermFail)
    );
    assert_eq!(
        failure(start().advance(received("60 who\r\n"))),
        FetchError::ProtocolLevelFailure(Refusal::Auth)
    );
}

#[test]
fn a_native_text_document_ends_the_fetch_with_the_document() {
    match start().advance(received("20 text/gemini; lang=en\r\n# Title\n")) {
        FetchStep::Done(response) => assert_eq!(response.body.len(), 1),
        other => panic!("unexpected step {:?}", other),
    }
}

#[test]
fn decide_acts_on_a_parsed_response() {
    let url = Resource::parse("gemini://example.org/0").unwrap();
    let redirect = GeminiResponse::new("30 gemini://other.example/\r\n", &url).unwrap();
    match start().decide(redirect) {
        FetchStep::Request(fetch) => {
            assert_eq!(fetch.redirects(), 1);
            assert_eq!(fetch.target().as_str(), "gemini://other.example/");
        }
        other => panic!("unexpected step {:?}", other),
    }
    let image = GeminiResponse::new("20 image/png\r\n", &url).unwrap();
    assert_eq!(failure(start().decide(image)), FetchError::UnsupportedMediaType);
}

#[test]
fn the_request_names_the_target_in_full() {
    let fetch = Fetch::start(Resource::parse("gemini://example.org/a?b=c").unwrap());
    assert_eq!(fetch.request(), "gemini://example.org/a?b=c\r\n");
    assert_eq!(fetch.authority(), Some("example.org:1965".to_string()));
    let no_domain = Fetch::start(Resource::parse("gemini://[::1]/").unwrap());
    assert_eq!(no_domain.authority(), None);
}

#[test]
fn a_fetch_can_be_given_a_limit_of_its_own() {
    let url = Resource::parse("gemini://example.org/0").unwrap();
    assert_eq!(Fetch::start(url.clone()).limit(), MAX_REDIRECT);
    let none = Fetch::with_limit(url.clone(), 0);
    assert_eq!(
        failure(none.advance(received("30 gemini://example.org/1\r\n"))),
        FetchError::RedirectLimitExceeded
    );
    let one = Fetch::with_limit(url, 1);
    match one.advance(received("30 gemini://example.org/1\r\n")) {
        FetchStep::Request(next) => {
            assert_eq!(next.limit(), 1);
            assert_eq!(
                failure(next.advance(received("30 gemini://example.org/2\r\n"))),
                FetchError::RedirectLimitExceeded
            );
        }
        other => panic!("unexpected step {:?}", other),
    }
}
