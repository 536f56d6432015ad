use gemini_crawler::crawl::{Completion, Crawl, FrontierEntry};
use gemini_crawler::error::FetchError;
use gemini_crawler::gemini_web::GeminiWeb;
use gemini_crawler::resource::Resource;
use gemini_crawler::response::GeminiResponse;

fn url(s: &str) -> Resource {
    Resource::parse(s).unwrap()
}

fn page(at: &Resource, links: &[&str]) -> GeminiResponse {
    let mut text = String::from("20 text/gemini\r\n");
    for l in links {
        text.push_str("=> ");
        text.push_str(l);
        text.push('\n');
    }
    GeminiResponse::new(&text, at).unwrap()
}

fn serve(entry: &FrontierEntry) -> Result<GeminiResponse, FetchError> {
    match entry.url.as_str() {
        "gemini://a.example/" => Ok(page(&entry.url, &["gemini://b.example/", "gemini://c.example/"])),
        "gemini://b.example/" => Ok(page(&entry.url, &["gemini://c.example/"])),
        "gemini://c.example/" => Ok(page(&entry.url, &[])),
        _ => Err(FetchError::ConnectFailure),
    }
}

fn run_to_completion(crawl: &mut Crawl, limit: usize) {
    let mut outstanding: Vec<FrontierEntry> = Vec::new();
    loop {
        while let Some(entry) = crawl.next() {
            outstanding.push(entry);
            assert!(outstanding.len() <= limit);
            assert_eq!(crawl.in_flight(), outstanding.len());
        }
        if crawl.is_finished() {
            break;
        }
        let entry = outstanding.remove(0);
        let outcome = serve(&entry);
        crawl.complete(&entry, outcome);
    }
    assert!(outstanding.is_empty());
}

#[test]
fn the_fixture_is_crawled_to_completion() {
    for limit in [1, 2, 5] {
        let mut crawl = Crawl::new(GeminiWeb::new(), limit, 10, None);
        assert!(crawl.seed(&url("gemini://a.example/")));
        run_to_completion(&mut crawl, limit);
        let web = crawl.finish();
        assert_eq!(web.node_count(), 3);
        let a = web.node_id(&url("gemini://a.example/")).unwrap();
        let b = web.node_id(&url("gemini://b.example/")).unwrap();
        let c = web.node_id(&url("gemini://c.example/")).unwrap();
        assert_eq!(web.edge_weight(a, b), 1);
        assert_eq!(web.edge_weight(a, c), 1);
        assert_eq!(web.edge_weight(b, c), 1);
        assert_eq!(web.edge_count(), 3);
        assert!(web.is_visited(&url("gemini://a.example/")));
        assert!(web.is_visited(&url("gemini://b.example/")));
        assert!(web.is_visited(&url("gemini://c.example/")));
        assert!(web.unvisited().is_empty());
        assert!(web.response(&url("gemini://b.example/")).is_some());
    }
}

#[test]
fn no_more_fetches_are_outstanding_than_the_limit_allows() {
    let limit = 3;
    let mut crawl = Crawl::new(GeminiWeb::new(), limit, 100, None);
    let mut i = 0;
    while i < 10 {
        assert!(crawl.seed(&url(&format!("gemini://host{}.example/", i))));
        i += 1;
    }
    let mut held: Vec<FrontierEntry> = Vec::new();
    while let Some(entry) = crawl.next() {
        held.push(entry);
    }
    assert_eq!(held.len(), limit);
    assert_eq!(crawl.in_flight(), limit);
    assert!(crawl.next().is_none());
    assert_eq!(crawl.frontier_len(), 7);
    let first = held.remove(0);
    assert_eq!(crawl.complete(&first, Err(FetchError::StageTimeout)), Completion::Failed(FetchError::StageTimeout));
    assert_eq!(crawl.in_flight(), limit - 1);
    assert!(crawl.next().is_some());
    assert!(crawl.next().is_none());
    assert_eq!(crawl.in_flight(), limit);
    assert!(!crawl.is_finished());
}

#[test]
fn a_limit_of_zero_hands_nothing_out() {
    let mut crawl = Crawl::new(GeminiWeb::new(), 0, 10, None);
    assert!(crawl.seed(&url("gemini://a.example/")));
    assert!(crawl.next().is_none());
    assert_eq!(crawl.frontier_len(), 1);
}

#[test]
fn cancellation_truncates_the_graph() {
    let mut full = Crawl::new(GeminiWeb::new(), 1, 10, None);
    full.seed(&url("gemini://a.example/"));
    run_to_completion(&mut full, 1);
    let full = full.finish();

    for merged_before_cancel in [0, 1, 2, 3] {
        let mut crawl = Crawl::new(GeminiWeb::new(), 1, 10, None);
        crawl.seed(&url("gemini://a.example/"));
        let mut merged = 0;
        while merged < merged_before_cancel {
            let entry = crawl.next().unwrap();
            let outcome = serve(&entry);
            crawl.complete(&entry, outcome);
            merged += 1;
        }
        let nodes_before = crawl.graph().node_count();
        let edges_before = crawl.graph().edges_vec();
        crawl.cancel();
        assert!(crawl.is_cancelled());
        assert_eq!(crawl.graph().node_count(), nodes_before);
        assert_eq!(crawl.graph().edges_vec(), edges_before);
        assert!(crawl.next().is_none());
        assert!(!crawl.seed(&url("gemini://late.example/")));
        assert!(crawl.is_finished());
        let part = crawl.finish();
        assert!(part.node_count() <= full.node_count());
        let mut i = 0;
        while i < part.node_count() {
            assert!(part.node(i) == full.node(i));
            i += 1;
        }
        for (s, t, w) in part.edges_vec() {
            assert!(w <= full.edge_weight(s, t));
        }
    }
}

#[test]
fn outcomes_that_arrive_after_cancellation_are_merged_but_queue_nothing() {
    let mut crawl = Crawl::new(GeminiWeb::new(), 2, 10, None);
    crawl.seed(&url("gemini://a.example/"));
    let entry = crawl.next().unwrap();
    crawl.cancel();
    assert!(!crawl.is_finished());
    let outcome = serve(&entry);
    assert_eq!(crawl.complete(&entry, outcome), Completion::Merged(2));
    assert_eq!(crawl.frontier_len(), 0);
    assert!(crawl.is_finished());
    let web = crawl.finish();
    assert_eq!(web.node_count(), 3);
    assert_eq!(web.edge_count(), 2);
    assert_eq!(web.unvisited().len(), 2);
}

#[test]
fn a_full_frontier_drops_targets_and_says_so() {
    let mut crawl = Crawl::new(GeminiWeb::new(), 1, 2, None);
    let a = url("gemini://a.example/");
    crawl.seed(&a);
    let entry = crawl.next().unwrap();
    let doc = page(
        &a,
        &["gemini://1.example/", "gemini://2.example/", "gemini://3.example/", "gemini://a.example/", "https://web.example/"],
    );
    assert_eq!(crawl.complete(&entry, Ok(doc)), Completion::Merged(1));
    assert_eq!(crawl.frontier_len(), 2);
    assert_eq!(crawl.graph().node_count(), 4);
    assert_eq!(crawl.graph().edge_weight(0, 0), 1);
    assert_eq!(crawl.graph().unvisited().len(), 3);
    assert!(!crawl.seed(&url("gemini://more.example/")));
}

#[test]
fn a_failed_fetch_leaves_the_resource_unvisited() {
    let mut crawl = Crawl::new(GeminiWeb::new(), 1, 10, None);
    let x = url("gemini://unreachable.example/");
    crawl.seed(&x);
    let entry = crawl.next().unwrap();
    assert_eq!(
        crawl.complete(&entry, Err(FetchError::ConnectFailure)),
        Completion::Failed(FetchError::ConnectFailure)
    );
    assert!(crawl.is_finished());
    let web = crawl.finish();
    assert_eq!(web.unvisited().len(), 1);
    assert!(!web.is_visited(&x));
}

#[test]
fn a_document_is_merged_once() {
    let mut crawl = Crawl::new(GeminiWeb::new(), 2, 10, None);
    let a = url("gemini://a.example/");
    crawl.seed(&a);
    crawl.seed(&a);
    assert_eq!(crawl.frontier_len(), 2);
    let first = crawl.next().unwrap();
    let second = crawl.next().unwrap();
    assert_eq!(crawl.complete(&first, Ok(page(&a, &["gemini://b.example/"]))), Completion::Merged(0));
    assert_eq!(crawl.complete(&second, Ok(page(&a, &["gemini://b.example/"]))), Completion::Duplicate);
    assert_eq!(crawl.graph().edge_weight(0, 1), 1);
    assert_eq!(crawl.in_flight(), 0);
}

#[test]
fn fetched_resources_are_not_handed_out_again() {
    let mut web = GeminiWeb::new();
    let a = url("gemini://a.example/");
    let b = url("gemini://b.example/");
    web.try_visit(&a);
    let mut crawl = Crawl::new(web, 4, 10, None);
    assert!(!crawl.seed(&a));
    assert!(crawl.seed(&b));
    assert!(crawl.seed(&b));
    let entry = crawl.next().unwrap();
    assert_eq!(crawl.complete(&entry, Ok(page(&b, &[]))), Completion::Merged(0));
    assert!(crawl.next().is_none());
    assert_eq!(crawl.frontier_len(), 0);
    assert!(crawl.is_finished());
}

#[test]
fn an_entry_that_names_no_node_is_not_merged() {
    let mut crawl = Crawl::new(GeminiWeb::new(), 1, 10, None);
    let a = url("gemini://a.example/");
    crawl.seed(&a);
    let stranger = FrontierEntry { url: url("gemini://stranger.example/"), node: 0, depth: None };
    assert_eq!(crawl.complete(&stranger, Ok(page(&a, &[]))), Completion::Unknown);
    let wrong_id = FrontierEntry { url: a.clone(), node: 5, depth: None };
    assert_eq!(crawl.complete(&wrong_id, Ok(page(&a, &[]))), Completion::Unknown);
    assert_eq!(crawl.graph().node_count(), 1);
    assert!(!crawl.graph().is_visited(&a));
}

#[test]
fn depth_bounds_how_far_the_crawl_goes() {
    let mut crawl = Crawl::new(GeminiWeb::new(), 1, 10, Some(2));
    crawl.seed(&url("gemini://a.example/"));
    run_to_completion(&mut crawl, 1);
    let web = crawl.finish();
    assert_eq!(web.node_count(), 3);
    assert!(web.is_visited(&url("gemini://a.example/")));
    assert!(web.is_visited(&url("gemini://b.example/")));
    assert!(web.is_visited(&url("gemini://c.example/")));
    assert_eq!(web.edge_weight(1, 2), 1);

    let mut shallow = Crawl::new(GeminiWeb::new(), 1, 10, Some(1));
    shallow.seed(&url("gemini://a.example/"));
    run_to_completion(&mut shallow, 1);
    let web = shallow.finish();
    assert_eq!(web.node_count(), 3);
    assert_eq!(web.unvisited().len(), 2);
    assert_eq!(web.edge_count(), 2);

    let mut none = Crawl::new(GeminiWeb::new(), 1, 10, Some(0));
    assert!(!none.seed(&url("gemini://a.example/")));
    assert!(none.is_finished());
    assert_eq!(none.finish().node_count(), 0);
}

#[test]
fn a_crawl_resumes_from_the_unvisited_resources() {
    let mut first = Crawl::new(GeminiWeb::new(), 1, 10, Some(1));
    first.seed(&url("gemini://a.example/"));
    run_to_completion(&mut first, 1);
    let web = first.finish();
    let todo = web.unvisited();
    assert_eq!(todo.len(), 2);
    let mut second = Crawl::new(web, 2, 10, None);
    for u in &todo {
        assert!(second.seed(u));
    }
    run_to_completion(&mut second, 2);
    let web = second.finish();
    assert!(web.unvisited().is_empty());
    assert_eq!(web.edges_vec(), vec![(0, 1, 1), (0, 2, 1), (1, 2, 1)]);
}

#[test]
fn a_graph_without_room_merges_nothing() {
    let a = url("gemini://a.example/");
    let b = url("gemini://b.example/");
    let web = GeminiWeb::restore(&vec![a.clone(), b.clone()], &vec![false, false], &vec![(0, 1, usize::MAX - 1)])
        .unwrap();
    assert!(web.can_take(1));
    assert!(!web.can_take(2));
    let mut crawl = Crawl::new(web, 1, 10, None);
    crawl.seed(&b);
    let entry = crawl.next().unwrap();
    let doc = page(&b, &["gemini://a.example/", "gemini://a.example/"]);
    assert_eq!(crawl.complete(&entry, Ok(doc)), Completion::Full);
    assert_eq!(crawl.in_flight(), 0);
    assert!(!crawl.graph().is_visited(&b));
    assert_eq!(crawl.graph().edge_count(), 1);
    crawl.seed(&a);
    let entry = crawl.next().unwrap();
    assert_eq!(crawl.complete(&entry, Ok(page(&a, &["gemini://b.example/"]))), Completion::Merged(0));
    assert_eq!(crawl.graph().edge_weight(0, 1), usize::MAX);
    assert_eq!(crawl.graph().link_count(), usize::MAX);
}
