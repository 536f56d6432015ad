use gemini_crawler::document::{
    line_kind, read_statement, split_link, GeminiText, GeminiTextHeaderLevel, GeminiTextStatement,
    LineKind,
};
use gemini_crawler::resource::Resource;

fn chars(s: &str) -> Vec<char> {
    s.chars().collect()
}

fn base() -> Resource {
    Resource::parse("gemini://example.org/dir/page.gmi").unwrap()
}

fn line(s: &str) -> GeminiTextStatement {
    GeminiTextStatement::Line(s.to_string())
}

fn link(target: &str, label: &str) -> GeminiTextStatement {
    GeminiTextStatement::Link(Resource::parse(target).unwrap(), label.to_string())
}

#[test]
fn parser_reads_the_fixture() {
    let body = "# Title\n=> gemini://x/y label\n* item\n```\nraw\n```\n";
    let text = GeminiText::new(body, &base());
    let expected = vec![
        GeminiTextStatement::Header(GeminiTextHeaderLevel::L1, "Title".to_string()),
        link("gemini://x/y", "label"),
        GeminiTextStatement::ListItem("item".to_string()),
        line("raw"),
    ];
    assert_eq!(text.statements(), &expected);
    assert_eq!(text.len(), 4);
}

#[test]
fn fixture_survives_rendering_and_parsing_again() {
    let body = "# Title\n=> gemini://x/y label\n* item\n```\nraw\n```\n";
    let text = GeminiText::new(body, &base());
    let again = GeminiText::new(&text.render(), &base());
    assert_eq!(again, text);
    assert_eq!(text.render(), "# Title\n=> gemini://x/y label\n* item\nraw\n");
}

#[test]
fn fences_never_appear_as_content() {
    let text = GeminiText::new("```\n```\n  ```  \nx\n```", &base());
    assert_eq!(text.statements(), &vec![line("x")]);
}

#[test]
fn preformatted_lines_are_kept_verbatim() {
    let body = "```\n# not a heading\n=> gemini://x/ not a link\n  * spaced \n\n```\n# heading";
    let text = GeminiText::new(body, &base());
    let expected = vec![
        line("# not a heading"),
        line("=> gemini://x/ not a link"),
        line("  * spaced "),
        line(""),
        GeminiTextStatement::Header(GeminiTextHeaderLevel::L1, "heading".to_string()),
    ];
    assert_eq!(text.statements(), &expected);
}

#[test]
fn preformatted_lines_are_rendered_between_fences() {
    let body = "```\n# not a heading\n  indented\n```\nplain\n";
    let text = GeminiText::new(body, &base());
    assert_eq!(
        text.render(),
        "```\n# not a heading\n```\n```\n  indented\n```\nplain\n"
    );
    assert_eq!(GeminiText::new(&text.render(), &base()), text);
}

#[test]
fn headings_have_three_levels() {
    let text = GeminiText::new("#one\n## two\n###  three \n#### four", &base());
    let expected = vec![
        GeminiTextStatement::Header(GeminiTextHeaderLevel::L1, "one".to_string()),
        GeminiTextStatement::Header(GeminiTextHeaderLevel::L2, "two".to_string()),
        GeminiTextStatement::Header(GeminiTextHeaderLevel::L3, "three".to_string()),
        GeminiTextStatement::Header(GeminiTextHeaderLevel::L3, "# four".to_string()),
    ];
    assert_eq!(text.statements(), &expected);
    assert_eq!(text.render(), "# one\n## two\n### three\n### # four\n");
}

#[test]
fn links_split_target_and_label_at_the_first_space() {
    let body = "=>gemini://a.example/\n=>\tgemini://b.example/x\tTwo words \n  => rel.gmi\n=> /abs label";
    let text = GeminiText::new(body, &base());
    let expected = vec![
        link("gemini://a.example/", ""),
        link("gemini://b.example/x", "Two words"),
        link("gemini://example.org/dir/rel.gmi", ""),
        link("gemini://example.org/abs", "label"),
    ];
    assert_eq!(text.statements(), &expected);
    assert_eq!(
        text.render(),
        "=> gemini://a.example/\n=> gemini://b.example/x Two words\n=> gemini://example.org/dir/rel.gmi\n=> gemini://example.org/abs label\n"
    );
}

#[test]
fn a_link_that_does_not_parse_is_dropped_alone() {
    let text = GeminiText::new("before\n=> gemini://[::1 broken\nafter", &base());
    assert_eq!(text.statements(), &vec![line("before"), line("after")]);
}

#[test]
fn plain_lines_are_trimmed_outside_preformatted_mode() {
    let text = GeminiText::new("  hello world \r\n\n*item", &base());
    let expected =
        vec![line("hello world"), line(""), GeminiTextStatement::ListItem("item".to_string())];
    assert_eq!(text.statements(), &expected);
}

#[test]
fn gemini_urls_keeps_only_links_of_the_own_protocol() {
    let body = "=> gemini://a.example/\n=> https://web.example/\n=> rel\n```\n=> gemini://hidden.example/\n```\n=> gemini://a.example/ again";
    let text = GeminiText::new(body, &base());
    let urls: Vec<String> = text.gemini_urls().iter().map(|u| u.to_text()).collect();
    assert_eq!(
        urls,
        vec!["gemini://a.example/", "gemini://example.org/dir/rel", "gemini://a.example/"]
    );
}

#[test]
fn line_kind_reads_the_markers() {
    assert_eq!(line_kind(&chars("```")), LineKind::Fence);
    assert_eq!(line_kind(&chars("````")), LineKind::Plain);
    assert_eq!(line_kind(&chars("=> x")), LineKind::Link);
    assert_eq!(line_kind(&chars("=")), LineKind::Plain);
    assert_eq!(line_kind(&chars("#")), LineKind::Header(GeminiTextHeaderLevel::L1));
    assert_eq!(line_kind(&chars("##")), LineKind::Header(GeminiTextHeaderLevel::L2));
    assert_eq!(line_kind(&chars("###x")), LineKind::Header(GeminiTextHeaderLevel::L3));
    assert_eq!(line_kind(&chars("* x")), LineKind::ListItem);
    assert_eq!(line_kind(&chars("")), LineKind::Plain);
    assert_eq!(line_kind(&chars("text")), LineKind::Plain);
}

#[test]
fn split_link_gives_target_and_label() {
    let (target, label) = split_link(&chars("=> \tgemini://x/\t a  b "));
    assert_eq!(target.iter().collect::<String>(), "gemini://x/");
    assert_eq!(label.iter().collect::<String>(), "a  b");
    let (target, label) = split_link(&chars("=>"));
    assert!(target.is_empty() && label.is_empty());
}

#[test]
fn read_statement_builds_a_link_only_from_a_resolved_target() {
    let target = Resource::parse("gemini://x/").unwrap();
    assert_eq!(
        read_statement(&chars("=> anything label"), Some(target)),
        Some(link("gemini://x/", "label"))
    );
    assert_eq!(read_statement(&chars("=> anything label"), None), None);
    assert_eq!(read_statement(&chars("```"), None), None);
    assert_eq!(read_statement(&chars("* a"), None), Some(GeminiTextStatement::ListItem("a".to_string())));
    assert_eq!(read_statement(&chars("a"), None), Some(line("a")));
}

#[test]
fn clone_keeps_the_statements() {
    let text = GeminiText::new("# a\n=> gemini://x/ l\nb", &base());
    assert_eq!(text.clone(), text);
}

#[test]
fn the_default_document_is_empty() {
    assert_eq!(GeminiText::default().len(), 0);
    assert_eq!(GeminiText::default().render(), "");
    assert_eq!(GeminiText::default(), GeminiText::new("", &base()));
}

#[test]
fn writable_documents_survive_rendering_and_parsing_again() {
    let body = "=> gemini://a.example/x?q=1 A label\n=> rel\n* \n#\n## t\n```\n ``` x\n=> y\n\n```\nend";
    let text = GeminiText::new(body, &base());
    assert_eq!(text.len(), 9);
    let again = GeminiText::new(&text.render(), &base());
    assert_eq!(again, text);
    assert_eq!(again.render(), text.render());
}
