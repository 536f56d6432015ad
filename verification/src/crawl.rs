//! The crawl scheduler, as a state machine.
//!
//! A [`Crawl`] owns the link graph and a bounded frontier of resources that
//! wait to be fetched. The caller runs the fetches, as many at a time as the
//! crawl hands out, and gives every outcome back. The crawl alone changes
//! the graph: it merges each document once, counts its links, and queues
//! the targets that have not been fetched.

use crate::document::{gemini_links, resource_views};
use crate::error::FetchError;
use crate::gemini_web::{extends_records, texts, GeminiWeb, NODE_LIMIT};
use crate::resource::{Resource, ResourceView};
use crate::response::{GeminiResponse, ResponseView};
use crate::web_view::{lemma_add_edges, lemma_add_node, lemma_mark_visited, WebView};
use std::collections::VecDeque;
use vstd::prelude::*;

verus! {

/// A resource that waits to be fetched.
#[derive(Debug)]
pub struct FrontierEntry {
    /// The resource.
    pub url: Resource,
    /// Its node id.
    pub node: usize,
    /// How many fetches deep the crawl may still go from here, this one
    /// included, where depth is bounded.
    pub depth: Option<usize>,
}

/// What became of the outcome of a fetch.
#[derive(Clone, Copy, Debug, PartialEq, Eq, Structural)]
pub enum Completion {
    /// The fetch failed. The resource stays as it was: discovered and not
    /// fetched.
    Failed(FetchError),
    /// The entry names no node of this crawl's graph; nothing was merged.
    Unknown,
    /// The resource had been fetched before; nothing was merged.
    Duplicate,
    /// The graph has no room for the document's links; nothing was merged.
    Full,
    /// The document was merged. So many of its targets were not queued
    /// although they are still to be fetched: the frontier was full, or the
    /// crawl is cancelled.
    Merged(usize),
}

/// The mathematical content of a [`FrontierEntry`].
pub ghost struct EntryView {
    pub url: ResourceView,
    pub node: int,
    pub depth: Option<nat>,
}

/// The mathematical content of a [`Crawl`].
pub ghost struct CrawlView {
    /// The link graph.
    pub web: WebView,
    /// The resources that wait to be fetched, first in first out.
    pub frontier: Seq<EntryView>,
    /// The number of fetches handed out and not yet given back.
    pub in_flight: nat,
    /// The largest number of fetches to be outstanding at a time.
    pub limit: nat,
    /// The largest number of entries that the frontier holds.
    pub capacity: nat,
    /// Whether the crawl has been cancelled.
    pub cancelled: bool,
    /// The depth given to seeds, where depth is bounded.
    pub max_depth: Option<nat>,
}

/// Something that happens to a crawl.
pub ghost enum CrawlEvent {
    /// A seed is offered.
    Seed(ResourceView),
    /// The caller asks for a resource to fetch.
    Dispatch,
    /// The caller gives back the outcome of a fetch.
    Complete(EntryView, Result<ResponseView, FetchError>),
    /// The caller cancels the crawl.
    Cancel,
}

impl View for FrontierEntry {
    type V = EntryView;

    open spec fn view(&self) -> EntryView {
        EntryView {
            url: self.url@,
            node: self.node as int,
            depth: match self.depth {
                Some(d) => Some(d as nat),
                None => None,
            },
        }
    }
}

/// The depth of the targets of a document fetched at depth `depth`.
pub open spec fn child_depth(depth: Option<nat>) -> Option<nat> {
    match depth {
        Some(d) => Some(
            if d > 0 {
                (d - 1) as nat
            } else {
                0
            },
        ),
        None => None,
    }
}

/// Whether a resource at depth `depth` is to be fetched at all.
pub open spec fn within_depth(depth: Option<nat>) -> bool {
    depth != Some(0nat)
}

/// Whether an entry names a node of the graph by its resource and its id.
pub open spec fn names_node(web: WebView, entry: EntryView) -> bool {
    web.contains(entry.url.text) && web.id_of(entry.url.text) == entry.node
}

/// `frontier` without the fetched resources at its front.
pub open spec fn skip_visited(web: WebView, frontier: Seq<EntryView>) -> Seq<EntryView>
    decreases frontier.len(),
{
    if frontier.len() > 0 && web.is_visited(frontier[0].url.text) {
        skip_visited(web, frontier.drop_first())
    } else {
        frontier
    }
}

/// Whether a target found at depth `depth` is still to be fetched.
pub open spec fn wanted(web: WebView, target: ResourceView, depth: Option<nat>) -> bool {
    within_depth(depth) && !web.is_visited(target.text)
}

/// The frontier after the targets `links`, found at depth `depth`, are
/// offered to it in order. A target is queued where it is still to be
/// fetched, the crawl is not cancelled and the frontier has room.
pub open spec fn enqueued(
    web: WebView,
    frontier: Seq<EntryView>,
    links: Seq<ResourceView>,
    depth: Option<nat>,
    capacity: nat,
    cancelled: bool,
) -> Seq<EntryView>
    decreases links.len(),
{
    if links.len() == 0 {
        frontier
    } else {
        let before = enqueued(web, frontier, links.drop_last(), depth, capacity, cancelled);
        let target = links.last();
        if wanted(web, target, depth) && !cancelled && before.len() < capacity {
            before.push(EntryView { url: target, node: web.id_of(target.text), depth })
        } else {
            before
        }
    }
}

/// How many of the targets `links` are still to be fetched and yet were not
/// queued by [`enqueued`].
pub open spec fn dropped(
    web: WebView,
    frontier: Seq<EntryView>,
    links: Seq<ResourceView>,
    depth: Option<nat>,
    capacity: nat,
    cancelled: bool,
) -> nat
    decreases links.len(),
{
    if links.len() == 0 {
        0
    } else {
        let before = enqueued(web, frontier, links.drop_last(), depth, capacity, cancelled);
        let count = dropped(web, frontier, links.drop_last(), depth, capacity, cancelled);
        if wanted(web, links.last(), depth) && (cancelled || before.len() >= capacity) {
            count + 1
        } else {
            count
        }
    }
}

/// The normalized texts of a sequence of resources.
pub open spec fn link_texts(links: Seq<ResourceView>) -> Seq<Seq<char>> {
    Seq::new(links.len(), |i: int| links[i].text)
}

impl CrawlView {
    /// The graph is well formed, no more fetches are outstanding than the
    /// limit allows, the frontier is within its capacity, and every entry of
    /// it names a node.
    pub open spec fn wf(self) -> bool {
        &&& self.web.wf()
        &&& self.in_flight <= self.limit
        &&& self.frontier.len() <= self.capacity
        &&& forall|i: int|
            0 <= i < self.frontier.len() ==> names_node(self.web, #[trigger] self.frontier[i])
    }

    /// Whether a seed is taken: the crawl is running, the seed is within
    /// depth and not fetched, and frontier and graph have room for it.
    pub open spec fn takes_seed(self, url: ResourceView) -> bool {
        &&& !self.cancelled
        &&& wanted(self.web, url, self.max_depth)
        &&& self.frontier.len() < self.capacity
        &&& (self.web.contains(url.text) || self.web.nodes.len() < NODE_LIMIT)
    }

    /// The crawl after the seed `url` is offered: where it is taken, it is
    /// discovered and queued.
    pub open spec fn seeded(self, url: ResourceView) -> CrawlView {
        if self.takes_seed(url) {
            let web = self.web.add_node(url.text);
            CrawlView {
                web,
                frontier: self.frontier.push(
                    EntryView { url, node: web.id_of(url.text), depth: self.max_depth },
                ),
                ..self
            }
        } else {
            self
        }
    }

    /// Whether a fetch can be handed out at all: the crawl is running and
    /// fewer fetches are outstanding than the limit allows.
    pub open spec fn hands_out(self) -> bool {
        !self.cancelled && self.in_flight < self.limit
    }

    /// The entry that is handed out next, where there is one: the first of
    /// the frontier whose resource has not been fetched.
    pub open spec fn next_entry(self) -> Option<EntryView> {
        let ready = skip_visited(self.web, self.frontier);
        if self.hands_out() && ready.len() > 0 {
            Some(ready[0])
        } else {
            None
        }
    }

    /// The crawl after the caller asked for a resource to fetch. Fetched
    /// resources at the front of the frontier are discarded; the entry behind
    /// them is handed out and counts as outstanding.
    pub open spec fn dispatched(self) -> CrawlView {
        let ready = skip_visited(self.web, self.frontier);
        if !self.hands_out() {
            self
        } else if ready.len() == 0 {
            CrawlView { frontier: ready, ..self }
        } else {
            CrawlView { frontier: ready.drop_first(), in_flight: self.in_flight + 1, ..self }
        }
    }

    /// The crawl with one outstanding fetch fewer.
    pub open spec fn released(self) -> CrawlView {
        CrawlView {
            in_flight: if self.in_flight > 0 {
                (self.in_flight - 1) as nat
            } else {
                0
            },
            ..self
        }
    }

    /// Whether the document fetched for `entry` is merged: the entry names a
    /// node, and its resource has not been fetched before.
    pub open spec fn merges(self, entry: EntryView) -> bool {
        names_node(self.web, entry) && !self.web.is_visited(entry.url.text)
    }

    /// The graph after the document `response`, fetched for `entry`, is
    /// merged: the resource is marked fetched, and every link of the
    /// document to a resource of the crawler's own protocol is counted.
    pub open spec fn merged_web(self, entry: EntryView, response: ResponseView) -> WebView {
        self.web.mark_visited(entry.url.text).add_edges(
            entry.node,
            link_texts(gemini_links(response.body)),
        )
    }

    /// The crawl after the outcome of the fetch for `entry` is given back.
    /// A failure changes nothing but the number of outstanding fetches. A
    /// document is merged once and its targets are offered to the frontier.
    pub open spec fn completed(
        self,
        entry: EntryView,
        outcome: Result<ResponseView, FetchError>,
    ) -> CrawlView {
        match outcome {
            Ok(response) => if self.merges(entry) {
                let web = self.merged_web(entry, response);
                CrawlView {
                    web,
                    frontier: enqueued(
                        web,
                        self.frontier,
                        gemini_links(response.body),
                        child_depth(entry.depth),
                        self.capacity,
                        self.cancelled,
                    ),
                    ..self.released()
                }
            } else {
                self.released()
            },
            Err(_) => self.released(),
        }
    }

    /// What [`CrawlView::completed`] reports.
    pub open spec fn completion(
        self,
        entry: EntryView,
        outcome: Result<ResponseView, FetchError>,
    ) -> Completion {
        match outcome {
            Ok(response) => if !names_node(self.web, entry) {
                Completion::Unknown
            } else if self.web.is_visited(entry.url.text) {
                Completion::Duplicate
            } else {
                Completion::Merged(
                    dropped(
                        self.merged_web(entry, response),
                        self.frontier,
                        gemini_links(response.body),
                        child_depth(entry.depth),
                        self.capacity,
                        self.cancelled,
                    ) as usize,
                )
            },
            Err(e) => Completion::Failed(e),
        }
    }

    /// The crawl after it is cancelled: nothing is handed out or queued any
    /// more, and the graph is as it was.
    pub open spec fn stopped(self) -> CrawlView {
        CrawlView { cancelled: true, ..self }
    }

    /// Whether the crawl is over: no fetch is outstanding, and either the
    /// frontier is empty or the crawl is cancelled.
    pub open spec fn finished(self) -> bool {
        self.in_flight == 0 && (self.cancelled || self.frontier.len() == 0)
    }

    /// The crawl after one event.
    pub open spec fn after(self, event: CrawlEvent) -> CrawlView {
        match event {
            CrawlEvent::Seed(url) => self.seeded(url),
            CrawlEvent::Dispatch => self.dispatched(),
            CrawlEvent::Complete(entry, outcome) => self.completed(entry, outcome),
            CrawlEvent::Cancel => self.stopped(),
        }
    }

    /// The crawl after a series of events, in order.
    pub open spec fn after_all(self, events: Seq<CrawlEvent>) -> CrawlView
        decreases events.len(),
    {
        if events.len() == 0 {
            self
        } else {
            self.after_all(events.drop_last()).after(events.last())
        }
    }
}

/// What `skip_visited` leaves is the end of the frontier, and what it leaves
/// does not start with a fetched resource.
pub proof fn lemma_skip_visited(web: WebView, frontier: Seq<EntryView>)
    ensures
        skip_visited(web, frontier).len() <= frontier.len(),
        skip_visited(web, frontier) == frontier.skip(
            frontier.len() - skip_visited(web, frontier).len(),
        ),
        skip_visited(web, frontier).len() > 0 ==> !web.is_visited(
            skip_visited(web, frontier)[0].url.text,
        ),
    decreases frontier.len(),
{
    if frontier.len() > 0 && web.is_visited(frontier[0].url.text) {
        let rest = frontier.drop_first();
        lemma_skip_visited(web, rest);
    }
}

/// What offering targets to the frontier does: it stays within capacity,
/// keeps what it held, and holds only entries that name nodes.
pub proof fn lemma_enqueued(
    web: WebView,
    frontier: Seq<EntryView>,
    links: Seq<ResourceView>,
    depth: Option<nat>,
    capacity: nat,
    cancelled: bool,
)
    requires
        web.wf(),
        frontier.len() <= capacity,
        forall|i: int| 0 <= i < frontier.len() ==> names_node(web, #[trigger] frontier[i]),
        forall|i: int| 0 <= i < links.len() ==> web.contains((#[trigger] links[i]).text),
    ensures
        frontier.len() <= enqueued(web, frontier, links, depth, capacity, cancelled).len()
            <= capacity,
        enqueued(web, frontier, links, depth, capacity, cancelled).len() <= frontier.len()
            + links.len(),
        dropped(web, frontier, links, depth, capacity, cancelled) <= links.len(),
        forall|i: int|
            0 <= i < enqueued(web, frontier, links, depth, capacity, cancelled).len()
                ==> names_node(
                web,
                #[trigger] enqueued(web, frontier, links, depth, capacity, cancelled)[i],
            ),
    decreases links.len(),
{
    if links.len() > 0 {
        let front = links.drop_last();
        lemma_enqueued(web, frontier, front, depth, capacity, cancelled);
    }
}

/// Every event keeps a crawl well formed and its limit, never takes
/// anything from the graph, and never lets more fetches be outstanding than
/// the limit allows.
pub proof fn lemma_after(c: CrawlView, event: CrawlEvent)
    requires
        c.wf(),
    ensures
        c.after(event).wf(),
        c.after(event).limit == c.limit,
        c.after(event).in_flight <= c.limit,
        c.web.is_part_of(c.after(event).web),
        event is Cancel || event is Dispatch ==> c.after(event).web == c.web,
{
    match event {
        CrawlEvent::Seed(url) => {
            if c.takes_seed(url) {
                lemma_add_node(c.web, url.text);
            }
        },
        CrawlEvent::Dispatch => {
            lemma_skip_visited(c.web, c.frontier);
        },
        CrawlEvent::Complete(entry, outcome) => {
            match outcome {
                Ok(response) => {
                    if c.merges(entry) {
                        let links = gemini_links(response.body);
                        let marked = c.web.mark_visited(entry.url.text);
                        let web = c.merged_web(entry, response);
                        lemma_mark_visited(c.web, entry.url.text);
                        lemma_add_edges(marked, entry.node, link_texts(links));
                        assert forall|i: int| 0 <= i < links.len() implies web.contains(
                            (#[trigger] links[i]).text,
                        ) by {
                            assert(link_texts(links)[i] == links[i].text);
                        }
                        lemma_enqueued(
                            web,
                            c.frontier,
                            links,
                            child_depth(entry.depth),
                            c.capacity,
                            c.cancelled,
                        );
                    }
                },
                Err(_) => {},
            }
        },
        CrawlEvent::Cancel => {},
    }
}

/// Bounded concurrency. Whatever happens to a crawl, in whatever order, the
/// number of outstanding fetches never exceeds the limit it was made with.
pub proof fn law_bounded_concurrency(c: CrawlView, events: Seq<CrawlEvent>)
    requires
        c.wf(),
    ensures
        c.after_all(events).wf(),
        c.after_all(events).limit == c.limit,
        c.after_all(events).in_flight <= c.limit,
    decreases events.len(),
{
    if events.len() > 0 {
        law_bounded_concurrency(c, events.drop_last());
        lemma_after(c.after_all(events.drop_last()), events.last());
    }
}

/// The graph only grows. What a crawl has merged at any moment is part of
/// what it holds after any further events.
pub proof fn lemma_graph_grows(c: CrawlView, events: Seq<CrawlEvent>)
    requires
        c.wf(),
    ensures
        c.after_all(events).wf(),
        c.web.is_part_of(c.after_all(events).web),
    decreases events.len(),
{
    if events.len() > 0 {
        let mid = c.after_all(events.drop_last());
        lemma_graph_grows(c, events.drop_last());
        lemma_after(mid, events.last());
    }
}

/// Running through `first + rest` is running through `rest` from where
/// running through `first` ends.
pub proof fn lemma_after_all_append(c: CrawlView, first: Seq<CrawlEvent>, rest: Seq<CrawlEvent>)
    ensures
        c.after_all(first + rest) == c.after_all(first).after_all(rest),
    decreases rest.len(),
{
    if rest.len() > 0 {
        assert((first + rest).drop_last() == first + rest.drop_last());
        lemma_after_all_append(c, first, rest.drop_last());
    }
}

/// Cancellation truncates and never corrupts. Let a crawl go through the
/// events `so_far` and be cancelled then. Cancelling leaves the graph as it
/// is, and that graph is part of the graph that the crawl reaches when it is
/// not cancelled and goes on through any further events `to_come`: the same
/// nodes under the same ids, and no edge heavier than it gets to be.
pub proof fn law_cancellation_truncates(
    c: CrawlView,
    so_far: Seq<CrawlEvent>,
    to_come: Seq<CrawlEvent>,
)
    requires
        c.wf(),
    ensures
        c.after_all(so_far).stopped().web == c.after_all(so_far).web,
        c.after_all(so_far).stopped().web.is_part_of(c.after_all(so_far + to_come).web),
{
    lemma_graph_grows(c, so_far);
    lemma_after_all_append(c, so_far, to_come);
    lemma_graph_grows(c.after_all(so_far), to_come);
}

/// The contents of a queue of entries.
pub open spec fn entry_views(v: Seq<FrontierEntry>) -> Seq<EntryView> {
    Seq::new(v.len(), |i: int| v[i]@)
}

/// The content of the outcome of a fetch.
pub open spec fn fetched_view(outcome: Result<GeminiResponse, FetchError>) -> Result<
    ResponseView,
    FetchError,
> {
    match outcome {
        Ok(response) => Ok(response@),
        Err(e) => Err(e),
    }
}

/// The targets that a fetched document links to by the crawler's own
/// protocol; none where the fetch failed.
pub open spec fn links_of(outcome: Result<GeminiResponse, FetchError>) -> Seq<ResourceView> {
    match outcome {
        Ok(response) => gemini_links(response@.body),
        Err(_) => Seq::empty(),
    }
}

/// What completing a fetch does to the recorded responses: where the
/// document was merged, it is the record of the node that was fetched;
/// every other record stays, and nothing is recorded for the nodes that have
/// come with the merge.
pub open spec fn recorded(
    before: Seq<Option<ResponseView>>,
    after: Seq<Option<ResponseView>>,
    node: int,
    outcome: Result<ResponseView, FetchError>,
    merged: bool,
) -> bool {
    if merged {
        &&& outcome is Ok
        &&& 0 <= node < before.len()
        &&& extends_records(before.update(node, Some(outcome->Ok_0)), after)
    } else {
        after == before
    }
}

/// The content of an optional entry.
pub open spec fn entry_option_view(entry: Option<FrontierEntry>) -> Option<EntryView> {
    match entry {
        Some(e) => Some(e@),
        None => None,
    }
}

/// A crawl in progress.
pub struct Crawl {
    web: GeminiWeb,
    frontier: VecDeque<FrontierEntry>,
    in_flight: usize,
    limit: usize,
    capacity: usize,
    cancelled: bool,
    max_depth: Option<usize>,
}

impl View for Crawl {
    type V = CrawlView;

    closed spec fn view(&self) -> CrawlView {
        CrawlView {
            web: self.web@,
            frontier: entry_views(self.frontier@),
            in_flight: self.in_flight as nat,
            limit: self.limit as nat,
            capacity: self.capacity as nat,
            cancelled: self.cancelled,
            max_depth: match self.max_depth {
                Some(d) => Some(d as nat),
                None => None,
            },
        }
    }
}

impl Clone for FrontierEntry {
    fn clone(&self) -> (entry: Self)
        ensures
            entry@ == self@,
    {
        FrontierEntry { url: self.url.clone(), node: self.node, depth: self.depth }
    }
}

impl Crawl {
    /// The invariant of a crawl: its store is well formed, and so is the
    /// crawl that it stands for.
    pub closed spec fn wf(&self) -> bool {
        self.web.wf() && self@.wf()
    }

    /// The store that the crawl owns.
    pub closed spec fn store(&self) -> GeminiWeb {
        self.web
    }

    /// Bounded concurrency, of the crawl itself: a well-formed crawl has no
    /// more fetches outstanding than its limit allows. Its store is well
    /// formed and stands for its graph.
    pub proof fn law_within_limit(&self)
        requires
            self.wf(),
        ensures
            self@.wf(),
            self.store().wf(),
            self.store()@ == self@.web,
            self@.in_flight <= self@.limit,
    {
    }

    /// A crawl that continues from the graph `web`, with nothing queued and
    /// nothing outstanding. At most `concurrency_limit` fetches are handed
    /// out at a time, the frontier holds at most `frontier_capacity`
    /// entries, and seeds are given the depth `max_depth`.
    pub fn new(
        web: GeminiWeb,
        concurrency_limit: usize,
        frontier_capacity: usize,
        max_depth: Option<usize>,
    ) -> (crawl: Crawl)
        requires
            web.wf(),
        ensures
            crawl.wf(),
            crawl.store() == web,
            crawl@ == (CrawlView {
                web: web@,
                frontier: Seq::empty(),
                in_flight: 0,
                limit: concurrency_limit as nat,
                capacity: frontier_capacity as nat,
                cancelled: false,
                max_depth: match max_depth {
                    Some(d) => Some(d as nat),
                    None => None,
                },
            }),
    {
        proof {
            web.lemma_wf();
        }
        let crawl = Crawl {
            web,
            frontier: VecDeque::new(),
            in_flight: 0,
            limit: concurrency_limit,
            capacity: frontier_capacity,
            cancelled: false,
            max_depth,
        };
        assert(entry_views(crawl.frontier@) == Seq::<EntryView>::empty());
        crawl
    }

    /// The graph as it stands.
    pub fn graph(&self) -> (web: &GeminiWeb)
        requires
            self.wf(),
        ensures
            *web == self.store(),
            web.wf(),
            web@ == self@.web,
    {
        &self.web
    }

    /// Ends the crawl and hands out the graph as it stands.
    pub fn finish(self) -> (web: GeminiWeb)
        requires
            self.wf(),
        ensures
            web == self.store(),
            web.wf(),
            web@ == self@.web,
    {
        self.web
    }

    /// The number of fetches handed out and not yet given back.
    pub fn in_flight(&self) -> (n: usize)
        ensures
            n == self@.in_flight,
    {
        self.in_flight
    }

    /// The number of entries that wait in the frontier.
    pub fn frontier_len(&self) -> (n: usize)
        ensures
            n == self@.frontier.len(),
    {
        self.frontier.len()
    }

    /// Whether the crawl has been cancelled.
    pub fn is_cancelled(&self) -> (b: bool)
        ensures
            b == self@.cancelled,
    {
        self.cancelled
    }

    /// Whether the crawl is over.
    pub fn is_finished(&self) -> (b: bool)
        ensures
            b == self@.finished(),
    {
        self.in_flight == 0 && (self.cancelled || self.frontier.len() == 0)
    }

    /// Cancels the crawl: from now on nothing is handed out and nothing is
    /// queued. Outcomes of fetches that are outstanding are still merged.
    pub fn cancel(&mut self)
        requires
            old(self).wf(),
        ensures
            final(self).wf(),
            final(self)@ == old(self)@.stopped(),
            final(self).store() == old(self).store(),
            final(self)@.in_flight <= final(self)@.limit,
    {
        self.cancelled = true;
    }

    /// Offers a seed. Returns whether it was taken.
    pub fn seed(&mut self, url: &Resource) -> (taken: bool)
        requires
            old(self).wf(),
        ensures
            final(self).wf(),
            final(self)@ == old(self)@.seeded(url@),
            taken == old(self)@.takes_seed(url@),
            old(self)@.web.is_part_of(final(self)@.web),
            final(self)@.in_flight <= final(self)@.limit,
            extends_records(old(self).store().responses(), final(self).store().responses()),
    {
        proof {
            lemma_after(self@, CrawlEvent::Seed(url@));
        }
        let within = match self.max_depth {
            Some(d) => d != 0,
            None => true,
        };
        if self.cancelled || !within || self.frontier.len() >= self.capacity {
            return false;
        }
        if self.web.is_visited(url) {
            return false;
        }
        let known = self.web.node_id(url).is_some();
        if !known && self.web.node_count() >= NODE_LIMIT {
            return false;
        }
        let ghost before = entry_views(self.frontier@);
        let node = self.web.add_node(url);
        let entry = FrontierEntry { url: url.clone(), node, depth: self.max_depth };
        self.frontier.push_back(entry);
        assert(entry_views(self.frontier@) == before.push(entry@));
        true
    }

    /// Hands out the next resource to fetch, where the crawl is running,
    /// fewer fetches are outstanding than the limit allows, and a resource
    /// that has not been fetched waits in the frontier.
    pub fn next(&mut self) -> (entry: Option<FrontierEntry>)
        requires
            old(self).wf(),
        ensures
            final(self).wf(),
            final(self)@ == old(self)@.dispatched(),
            entry_option_view(entry) == old(self)@.next_entry(),
            final(self).store() == old(self).store(),
            final(self)@.in_flight <= final(self)@.limit,
            entry matches Some(e) ==> names_node(final(self)@.web, e@),
    {
        proof {
            lemma_after(self@, CrawlEvent::Dispatch);
        }
        if self.cancelled || self.in_flight >= self.limit {
            return None;
        }
        loop
            invariant
                self.web.wf(),
                self.web == old(self).web,
                self.in_flight == old(self).in_flight,
                self.limit == old(self).limit,
                self.capacity == old(self).capacity,
                self.cancelled == old(self).cancelled,
                self.max_depth == old(self).max_depth,
                !self.cancelled,
                self.in_flight < self.limit,
                old(self)@.dispatched().wf(),
                skip_visited(self.web@, entry_views(self.frontier@)) == skip_visited(
                    old(self).web@,
                    entry_views(old(self).frontier@),
                ),
                forall|i: int|
                    0 <= i < self.frontier@.len() ==> names_node(
                        self.web@,
                        #[trigger] entry_views(self.frontier@)[i],
                    ),
            decreases self.frontier@.len(),
        {
            let ghost queue = entry_views(self.frontier@);
            match self.frontier.pop_front() {
                None => {
                    return None;
                },
                Some(entry) => {
                    assert(entry_views(self.frontier@) == queue.drop_first());
                    if !self.web.is_visited(&entry.url) {
                        self.in_flight = self.in_flight + 1;
                        return Some(entry);
                    }
                },
            }
        }
    }

    /// Takes back the outcome of the fetch for `entry`.
    ///
    /// A failure leaves the graph as it is. A document is merged unless the
    /// entry names no node, the resource has been fetched before, or the
    /// graph has no room for the document's links. Merging marks the
    /// resource fetched, counts every link of the document to a resource of
    /// the crawler's own protocol, records the response, and queues the
    /// targets that are still to be fetched, as far as the frontier has
    /// room.
    pub fn complete(
        &mut self,
        entry: &FrontierEntry,
        outcome: Result<GeminiResponse, FetchError>,
    ) -> (done: Completion)
        requires
            old(self).wf(),
        ensures
            final(self).wf(),
            old(self)@.web.is_part_of(final(self)@.web),
            final(self)@.in_flight <= final(self)@.limit,
            match done {
                Completion::Full => {
                    &&& old(self)@.merges(entry@)
                    &&& !old(self).store().has_room(links_of(outcome).len())
                    &&& final(self)@ == old(self)@.released()
                    &&& final(self).store() == old(self).store()
                },
                _ => {
                    &&& final(self)@ == old(self)@.completed(entry@, fetched_view(outcome))
                    &&& done == old(self)@.completion(entry@, fetched_view(outcome))
                    &&& recorded(
                        old(self).store().responses(),
                        final(self).store().responses(),
                        entry@.node,
                        fetched_view(outcome),
                        done is Merged,
                    )
                    &&& outcome is Ok && old(self)@.merges(entry@) ==> old(self).store().has_room(
                        links_of(outcome).len(),
                    )
                },
            },
    {
        proof {
            self.web.lemma_wf();
            lemma_after(self@, CrawlEvent::Complete(entry@, fetched_view(outcome)));
        }
        if self.in_flight > 0 {
            self.in_flight = self.in_flight - 1;
        }
        let response = match outcome {
            Ok(response) => response,
            Err(e) => {
                return Completion::Failed(e);
            },
        };
        match self.web.node_id(&entry.url) {
            Some(id) => {
                if id != entry.node {
                    return Completion::Unknown;
                }
            },
            None => {
                return Completion::Unknown;
            },
        }
        if self.web.is_visited(&entry.url) {
            return Completion::Duplicate;
        }
        let links = response.gemini_urls();
        if !self.web.can_take(links.len()) {
            return Completion::Full;
        }
        let ghost found = gemini_links(response@.body);
        let ghost queue = entry_views(self.frontier@);
        assert(texts(links@) == link_texts(found));
        self.web.try_visit(&entry.url);
        let ids = self.web.add_urls(entry.node, links.as_slice());
        let ghost records = self.web.responses();
        self.web.record_response(&entry.url, response);
        let ghost web = self.web@;
        let depth: Option<usize> = match entry.depth {
            Some(d) => Some(
                if d > 0 {
                    d - 1
                } else {
                    0
                },
            ),
            None => None,
        };
        let within = match depth {
            Some(d) => d != 0,
            None => true,
        };
        let ghost below = child_depth(entry@.depth);
        let mut lost: usize = 0;
        let mut i: usize = 0;
        while i < links.len()
            invariant
                i <= links.len(),
                self.web.wf(),
                self.web@ == web,
                resource_views(links@) == found,
                ids@.len() == links@.len(),
                forall|j: int|
                    0 <= j < ids@.len() ==> ids@[j] == web.id_of(#[trigger] texts(links@)[j]),
                within == within_depth(below),
                below == (match depth {
                    Some(d) => Some(d as nat),
                    None => None,
                }),
                self.capacity == old(self).capacity,
                self.cancelled == old(self).cancelled,
                self.limit == old(self).limit,
                self.max_depth == old(self).max_depth,
                self.in_flight == old(self)@.released().in_flight,
                self.web.responses() == records.update(entry@.node, Some(response@)),
                entry_views(self.frontier@) == enqueued(
                    web,
                    queue,
                    found.take(i as int),
                    below,
                    self.capacity as nat,
                    self.cancelled,
                ),
                lost == dropped(
                    web,
                    queue,
                    found.take(i as int),
                    below,
                    self.capacity as nat,
                    self.cancelled,
                ),
                lost <= i,
            decreases links.len() - i,
        {
            proof {
                assert(found.take(i + 1).drop_last() == found.take(i as int));
                assert(texts(links@)[i as int] == links@[i as int]@.text);
            }
            if within && !self.web.is_visited(&links[i]) {
                if !self.cancelled && self.frontier.len() < self.capacity {
                    let queued = FrontierEntry { url: links[i].clone(), node: ids[i], depth };
                    self.frontier.push_back(queued);
                } else {
                    lost = lost + 1;
                }
            }
            i += 1;
        }
        assert(found.take(links.len() as int) == found);
        Completion::Merged(lost)
    }
}

} // verus!
