use gemini_crawler::document::GeminiTextStatement;
use gemini_crawler::error::FetchError;
use gemini_crawler::header::{GeminiHeader, StatusClass};
use gemini_crawler::resource::Resource;
use gemini_crawler::response::{parse_body_urls, GeminiResponse};

fn url() -> Resource {
    Resource::parse("gemini://example.org/dir/").unwrap()
}

#[test]
fn a_response_is_a_status_line_and_a_body() {
    let r = GeminiResponse::new("20 text/gemini\r\n# Hi\r\n=> next\r\ntext", &url()).unwrap();
    assert!(r.url == url());
    assert_eq!(r.header.class(), StatusClass::Success);
    assert_eq!(r.body.len(), 3);
    assert_eq!(r.body.statements()[2], GeminiTextStatement::Line("text".to_string()));
    let urls: Vec<String> = r.gemini_urls().iter().map(|u| u.to_text()).collect();
    assert_eq!(urls, vec!["gemini://example.org/dir/next"]);
    assert_eq!(r.clone(), r);
}

#[test]
fn the_status_line_ends_at_the_first_line_terminator() {
    let r = GeminiResponse::new("51 gone\r\n", &url()).unwrap();
    assert_eq!(r.header, GeminiHeader::PermFail("gone".to_string()));
    assert_eq!(r.body.len(), 0);
    let r = GeminiResponse::new("10 a\nb\r\nc\r\nd", &url()).unwrap();
    assert_eq!(r.header, GeminiHeader::Input("a\nb".to_string()));
    assert_eq!(r.body.len(), 2);
}

#[test]
fn a_response_without_a_line_terminator_is_malformed() {
    assert_eq!(GeminiResponse::new("20 text/gemini\n# Hi", &url()).unwrap_err(), FetchError::MalformedStatusLine);
    assert_eq!(GeminiResponse::new("", &url()).unwrap_err(), FetchError::MalformedStatusLine);
    assert_eq!(GeminiResponse::new("20 text/gemini\r", &url()).unwrap_err(), FetchError::MalformedStatusLine);
}

#[test]
fn errors_of_the_status_line_come_through() {
    assert_eq!(GeminiResponse::new("20\r\n", &url()).unwrap_err(), FetchError::MalformedStatusLine);
    assert_eq!(GeminiResponse::new("77 x\r\n", &url()).unwrap_err(), FetchError::UnknownStatusCode);
    assert_eq!(GeminiResponse::new("20 x\r\n", &url()).unwrap_err(), FetchError::UnsupportedMediaType);
    assert_eq!(GeminiResponse::new("30 x\r\n", &url()).unwrap_err(), FetchError::InvalidRedirectTarget);
}

#[test]
fn parse_body_urls_gives_the_links_of_the_document() {
    let body = "intro\n=> gemini://a.example/ A\n=> b.gmi\n=> https://web.example/\n=> gemini://[::1 bad\n";
    let urls: Vec<String> = parse_body_urls(&url(), body).iter().map(|u| u.to_text()).collect();
    assert_eq!(urls, vec!["gemini://a.example/", "gemini://example.org/dir/b.gmi"]);
    assert!(parse_body_urls(&url(), "").is_empty());
}
