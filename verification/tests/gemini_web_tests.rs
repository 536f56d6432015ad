use gemini_crawler::export::ExportError;
use gemini_crawler::gemini_web::{GeminiWeb, EDGE_LIMIT, NODE_LIMIT};
use gemini_crawler::resource::Resource;
use gemini_crawler::response::GeminiResponse;

fn url(s: &str) -> Resource {
    Resource::parse(s).unwrap()
}

fn names(urls: &[Resource]) -> Vec<String> {
    urls.iter().map(|u| u.to_text()).collect()
}

#[test]
fn a_new_store_is_empty() {
    let web = GeminiWeb::new();
    assert_eq!(web.node_count(), 0);
    assert_eq!(web.edge_count(), 0);
    assert_eq!(web.link_count(), 0);
    assert!(web.unvisited().is_empty());
    assert!(web.can_take(1000));
    assert_eq!(NODE_LIMIT, u32::MAX as usize);
    assert_eq!(EDGE_LIMIT, u32::MAX as usize);
}

#[test]
fn the_default_store_is_empty() {
    let web = GeminiWeb::default();
    assert_eq!(web.node_count(), 0);
    assert_eq!(web.edges_vec(), vec![]);
}

#[test]
fn add_node_is_idempotent() {
    let mut web = GeminiWeb::new();
    let a = web.add_node(&url("gemini://a.example/"));
    let b = web.add_node(&url("gemini://b.example/"));
    assert_eq!((a, b), (0, 1));
    assert_eq!(web.add_node(&url("gemini://a.example/")), a);
    assert_eq!(web.add_node(&url("gemini://b.example/")), b);
    assert_eq!(web.node_count(), 2);
    assert_eq!(web.node_id(&url("gemini://b.example/")), Some(1));
    assert_eq!(web.node_id(&url("gemini://c.example/")), None);
    assert_eq!(web.node(1).as_str(), "gemini://b.example/");
}

#[test]
fn nodes_are_keyed_by_the_full_address() {
    let mut web = GeminiWeb::new();
    let a = web.add_node(&url("gemini://a.example/page?x=1"));
    let b = web.add_node(&url("gemini://a.example/page?x=2"));
    let c = web.add_node(&url("gemini://a.example/page"));
    assert_eq!((a, b, c), (0, 1, 2));
}

#[test]
fn edge_weights_count_links() {
    let mut web = GeminiWeb::new();
    let s = web.add_node(&url("gemini://s.example/"));
    let t = url("gemini://t.example/");
    let u = url("gemini://u.example/");
    let mut k = 0;
    while k < 7 {
        let ids = web.add_urls(s, &[t.clone()]);
        assert_eq!(ids, vec![1]);
        if k % 2 == 0 {
            web.add_urls(s, &[u.clone(), u.clone()]);
            web.add_node(&url("gemini://other.example/"));
            web.try_visit(&t);
        }
        k += 1;
        assert_eq!(web.edge_weight(s, 1), k);
    }
    assert_eq!(web.edge_weight(s, 1), 7);
    assert_eq!(web.edge_weight(s, 2), 8);
    assert_eq!(web.edge_weight(1, s), 0);
    assert_eq!(web.edge_weight(s, s), 0);
    assert_eq!(web.edge_count(), 2);
    assert_eq!(web.link_count(), 15);
    assert_eq!(web.edges_vec(), vec![(0, 1, 7), (0, 2, 8)]);
}

#[test]
fn add_urls_returns_ids_in_input_order() {
    let mut web = GeminiWeb::new();
    let s = web.add_node(&url("gemini://s.example/"));
    let ids = web.add_urls(
        s,
        &[
            url("gemini://b.example/"),
            url("gemini://s.example/"),
            url("gemini://c.example/"),
            url("gemini://b.example/"),
        ],
    );
    assert_eq!(ids, vec![1, 0, 2, 1]);
    assert_eq!(web.edge_weight(0, 1), 2);
    assert_eq!(web.edge_weight(0, 0), 1);
    assert_eq!(web.edge_weight(0, 2), 1);
    assert_eq!(web.add_urls(s, &[]), Vec::<usize>::new());
    assert_eq!(web.add_url(2, &url("gemini://s.example/")), 0);
    assert_eq!(web.edge_weight(2, 0), 1);
}

#[test]
fn try_visit_tells_whether_the_resource_was_fetched_before() {
    let mut web = GeminiWeb::new();
    let a = url("gemini://a.example/");
    web.add_node(&a);
    assert!(!web.is_visited(&a));
    assert!(!web.try_visit(&a));
    assert!(web.is_visited(&a));
    assert!(web.try_visit(&a));
    let fresh = url("gemini://fresh.example/");
    assert!(!web.try_visit(&fresh));
    assert_eq!(web.node_id(&fresh), Some(1));
    assert!(web.is_visited(&fresh));
    assert_eq!(web.visited_marks(), &vec![true, true]);
}

#[test]
fn unvisited_is_discovered_without_visited() {
    let mut web = GeminiWeb::new();
    let s = web.add_node(&url("gemini://a.example/"));
    web.add_urls(s, &[url("gemini://b.example/"), url("gemini://c.example/")]);
    assert_eq!(
        names(&web.unvisited()),
        vec!["gemini://a.example/", "gemini://b.example/", "gemini://c.example/"]
    );
    assert!(!web.try_visit(&url("gemini://b.example/")));
    assert_eq!(names(&web.unvisited()), vec!["gemini://a.example/", "gemini://c.example/"]);
    assert!(web.try_visit(&url("gemini://b.example/")));
    assert_eq!(web.unvisited().len(), 2);
    assert!(!web.try_visit(&url("gemini://new.example/")));
    assert_eq!(web.unvisited().len(), 2);
    web.try_visit(&url("gemini://a.example/"));
    web.try_visit(&url("gemini://c.example/"));
    assert!(web.unvisited().is_empty());
}

#[test]
fn responses_are_recorded_by_the_resource_asked_for() {
    let mut web = GeminiWeb::new();
    let a = url("gemini://a.example/");
    assert!(web.response(&a).is_none());
    let first = GeminiResponse::new("20 text/gemini\r\none", &a).unwrap();
    let second = GeminiResponse::new("20 text/gemini\r\ntwo\nlines", &a).unwrap();
    assert_eq!(web.record_response(&a, first.clone()), 0);
    assert_eq!(web.response(&a), Some(&first));
    web.record_response(&a, second.clone());
    assert_eq!(web.response(&a), Some(&second));
    web.add_node(&url("gemini://b.example/"));
    assert!(web.response(&url("gemini://b.example/")).is_none());
    assert_eq!(web.node_count(), 2);
}

#[test]
fn to_dot_labels_nodes_with_domain_and_path() {
    let mut web = GeminiWeb::new();
    let s = web.add_node(&url("gemini://a.example/start"));
    web.add_urls(s, &[url("gemini://b.example/x/y"), url("gemini://b.example/x/y")]);
    let dot = web.to_dot().unwrap();
    let attributes_a = "label=\"a.example/start\" group=\"a.example\" fontname=\"monospace\"";
    let attributes_b = "label=\"b.example/x/y\" group=\"b.example\" fontname=\"monospace\"";
    let expected = format!(
        "digraph {{\n    0 [ label = \"{}\" {}]\n    1 [ label = \"{}\" {}]\n    0 -> 1 [ ]\n}}\n",
        "\\\"gemini://a.example/start\\\"", attributes_a, "\\\"gemini://b.example/x/y\\\"", attributes_b
    );
    assert_eq!(dot, expected);
}

#[test]
fn to_dot_refuses_a_resource_without_a_domain() {
    let mut web = GeminiWeb::new();
    web.add_node(&url("gemini://a.example/"));
    web.add_node(&url("gemini://[::1]/"));
    assert_eq!(web.to_dot().unwrap_err(), ExportError::MissingDomain);
}

#[test]
fn a_store_is_restored_from_its_lists() {
    let mut web = GeminiWeb::new();
    let s = web.add_node(&url("gemini://a.example/"));
    web.add_urls(s, &[url("gemini://b.example/"), url("gemini://c.example/"), url("gemini://b.example/")]);
    web.add_url(1, &url("gemini://c.example/"));
    web.try_visit(&url("gemini://b.example/"));
    let edges = web.edges_vec();
    assert_eq!(edges, vec![(0, 1, 2), (0, 2, 1), (1, 2, 1)]);
    let copy = GeminiWeb::restore(web.nodes(), web.visited_marks(), &edges).unwrap();
    assert_eq!(copy.nodes(), web.nodes());
    assert_eq!(copy.visited_marks(), web.visited_marks());
    assert_eq!(copy.edges_vec(), edges);
    assert_eq!(copy.link_count(), 4);
    assert_eq!(copy.edge_weight(0, 1), 2);
    assert_eq!(names(&copy.unvisited()), vec!["gemini://a.example/", "gemini://c.example/"]);
}

#[test]
fn lists_that_describe_no_graph_are_not_restored() {
    let a = url("gemini://a.example/");
    let b = url("gemini://b.example/");
    let two = vec![a.clone(), b.clone()];
    let marks = vec![false, true];
    assert!(GeminiWeb::restore(&two, &marks, &vec![(0, 1, 1), (1, 0, 3)]).is_some());
    assert!(GeminiWeb::restore(&vec![a.clone(), a.clone()], &marks, &vec![]).is_none());
    assert!(GeminiWeb::restore(&two, &vec![false], &vec![]).is_none());
    assert!(GeminiWeb::restore(&two, &marks, &vec![(0, 2, 1)]).is_none());
    assert!(GeminiWeb::restore(&two, &marks, &vec![(2, 0, 1)]).is_none());
    assert!(GeminiWeb::restore(&two, &marks, &vec![(0, 1, 0)]).is_none());
    assert!(GeminiWeb::restore(&two, &marks, &vec![(0, 1, 1), (0, 1, 1)]).is_none());
    assert!(GeminiWeb::restore(&two, &marks, &vec![(0, 1, usize::MAX), (1, 0, 1)]).is_none());
    assert!(GeminiWeb::restore(&vec![], &vec![], &vec![]).is_some());
}
