//! Gemtext documents: the line-oriented markup that native-text responses
//! carry, its parser and its renderer.

use crate::resource::{gemini_scheme, option_view, resolved, Resource, ResourceView};
use crate::text::{
    extend, find_from, lines, same, slice, split_lines, split_once, to_chars, to_string, trim,
    trimmed, untab, untabbed, views,
};
use vstd::prelude::*;

verus! {

/// The level of a heading.
#[derive(Clone, Copy, Debug, PartialEq, Eq, Structural)]
pub enum GeminiTextHeaderLevel {
    L1,
    L2,
    L3,
}

/// One structured line of a document.
#[derive(Debug, PartialEq, Eq)]
pub enum GeminiTextStatement {
    /// A line of plain text.
    Line(String),
    /// A link: its target and its label, which may be empty.
    Link(Resource, String),
    /// An item of a list.
    ListItem(String),
    /// A heading.
    Header(GeminiTextHeaderLevel, String),
}

/// The mathematical content of a [`GeminiTextStatement`].
pub ghost enum StatementView {
    Line(Seq<char>),
    Link(ResourceView, Seq<char>),
    ListItem(Seq<char>),
    Header(GeminiTextHeaderLevel, Seq<char>),
}

/// A parsed document: its structured lines, in the order of the text.
#[derive(Debug, PartialEq, Eq)]
pub struct GeminiText(Vec<GeminiTextStatement>);

/// What the first characters of a line, white space trimmed, make of it.
#[derive(Clone, Copy, Debug, PartialEq, Eq, Structural)]
pub enum LineKind {
    /// The line is the fence that toggles preformatted mode.
    Fence,
    /// The line starts with the link marker `=>`.
    Link,
    /// The line starts with one to three heading markers `#`.
    Header(GeminiTextHeaderLevel),
    /// The line starts with the list marker `*`.
    ListItem,
    /// Any other line.
    Plain,
}

impl View for GeminiTextStatement {
    type V = StatementView;

    open spec fn view(&self) -> StatementView {
        match self {
            GeminiTextStatement::Line(t) => StatementView::Line(t@),
            GeminiTextStatement::Link(r, label) => StatementView::Link(r@, label@),
            GeminiTextStatement::ListItem(t) => StatementView::ListItem(t@),
            GeminiTextStatement::Header(level, t) => StatementView::Header(*level, t@),
        }
    }
}

/// The contents of a sequence of statements.
pub open spec fn statement_views(v: Seq<GeminiTextStatement>) -> Seq<StatementView> {
    Seq::new(v.len(), |i: int| v[i]@)
}

impl View for GeminiText {
    type V = Seq<StatementView>;

    closed spec fn view(&self) -> Seq<StatementView> {
        statement_views(self.0@)
    }
}

/// Whether `line` is exactly the preformatting fence, three backticks.
pub open spec fn is_fence(line: Seq<char>) -> bool {
    line.len() == 3 && line[0] == '`' && line[1] == '`' && line[2] == '`'
}

/// The kind of a trimmed line.
pub open spec fn kind_of(line: Seq<char>) -> LineKind {
    if is_fence(line) {
        LineKind::Fence
    } else if line.len() >= 2 && line[0] == '=' && line[1] == '>' {
        LineKind::Link
    } else if line.len() >= 3 && line[0] == '#' && line[1] == '#' && line[2] == '#' {
        LineKind::Header(GeminiTextHeaderLevel::L3)
    } else if line.len() >= 2 && line[0] == '#' && line[1] == '#' {
        LineKind::Header(GeminiTextHeaderLevel::L2)
    } else if line.len() >= 1 && line[0] == '#' {
        LineKind::Header(GeminiTextHeaderLevel::L1)
    } else if line.len() >= 1 && line[0] == '*' {
        LineKind::ListItem
    } else {
        LineKind::Plain
    }
}

/// The number of heading markers of a level.
pub open spec fn marker_len(level: GeminiTextHeaderLevel) -> int {
    match level {
        GeminiTextHeaderLevel::L1 => 1,
        GeminiTextHeaderLevel::L2 => 2,
        GeminiTextHeaderLevel::L3 => 3,
    }
}

/// The target token and the label of a link line. What follows the marker
/// is trimmed, its tabs become spaces, and it is split at its first space;
/// both halves are trimmed again. Without a space all of it is the target
/// and the label is empty.
pub open spec fn link_parts(line: Seq<char>) -> (Seq<char>, Seq<char>) {
    let rest = untabbed(trim(line.skip(2)));
    match split_once(rest, ' ') {
        Some((target, label)) => (trim(target), trim(label)),
        None => (trim(rest), Seq::empty()),
    }
}

/// The statement that a trimmed line outside preformatted mode stands for,
/// given what its link target resolves to. A link whose target denotes no
/// resource stands for nothing; so does the fence, which is no content.
pub open spec fn statement_of(line: Seq<char>, target: Option<ResourceView>) -> Option<
    StatementView,
> {
    match kind_of(line) {
        LineKind::Fence => None,
        LineKind::Link => match target {
            Some(resource) => Some(StatementView::Link(resource, link_parts(line).1)),
            None => None,
        },
        LineKind::Header(level) => Some(
            StatementView::Header(level, trim(line.skip(marker_len(level)))),
        ),
        LineKind::ListItem => Some(StatementView::ListItem(trim(line.skip(1)))),
        LineKind::Plain => Some(StatementView::Line(line)),
    }
}

/// The parser's state between two lines: the statements read so far and
/// whether preformatted mode is on.
pub ghost struct ScanState {
    pub statements: Seq<StatementView>,
    pub preformatted: bool,
}

/// The state after reading the line `raw`, in a document fetched from
/// `base`. A fence toggles the mode and adds nothing. In preformatted mode
/// any other line is recorded verbatim as plain text. Outside it the trimmed
/// line is read by its kind.
pub open spec fn scan_step(state: ScanState, raw: Seq<char>, base: Seq<char>) -> ScanState {
    let line = trim(raw);
    if is_fence(line) {
        ScanState { statements: state.statements, preformatted: !state.preformatted }
    } else if state.preformatted {
        ScanState {
            statements: state.statements.push(StatementView::Line(raw)),
            preformatted: true,
        }
    } else {
        match statement_of(line, resolved(base, link_parts(line).0)) {
            Some(s) => ScanState { statements: state.statements.push(s), preformatted: false },
            None => state,
        }
    }
}

/// The state after reading all of `lines`, starting outside preformatted
/// mode.
pub open spec fn scan(lines: Seq<Seq<char>>, base: Seq<char>) -> ScanState
    decreases lines.len(),
{
    if lines.len() == 0 {
        ScanState { statements: Seq::empty(), preformatted: false }
    } else {
        scan_step(scan(lines.drop_last(), base), lines.last(), base)
    }
}

/// The document that the text `body`, fetched from `base`, parses to.
pub open spec fn parsed_text(body: Seq<char>, base: Seq<char>) -> Seq<StatementView> {
    scan(lines(body), base).statements
}

/// The targets of the links of `doc` that use the crawler's own protocol, in
/// order.
pub open spec fn gemini_links(doc: Seq<StatementView>) -> Seq<ResourceView>
    decreases doc.len(),
{
    if doc.len() == 0 {
        Seq::empty()
    } else {
        let before = gemini_links(doc.drop_last());
        match doc.last() {
            StatementView::Link(resource, _) => if resource.scheme == gemini_scheme() {
                before.push(resource)
            } else {
                before
            },
            _ => before,
        }
    }
}

/// Whether a line of plain text has to stand between fences when the
/// document is written out: outside preformatted mode it would lose white
/// space at its ends, or be read as something other than plain text.
pub open spec fn needs_fence(text: Seq<char>) -> bool {
    trim(text) != text || kind_of(text) != LineKind::Plain
}

/// The markers that open a heading of a level.
pub open spec fn markers(level: GeminiTextHeaderLevel) -> Seq<char> {
    match level {
        GeminiTextHeaderLevel::L1 => seq!['#'],
        GeminiTextHeaderLevel::L2 => seq!['#', '#'],
        GeminiTextHeaderLevel::L3 => seq!['#', '#', '#'],
    }
}

/// The three backticks of a fence.
pub open spec fn fence() -> Seq<char> {
    seq!['`', '`', '`']
}

/// The text of one statement, line terminator included.
pub open spec fn rendered_statement(s: StatementView) -> Seq<char> {
    match s {
        StatementView::Line(text) => if needs_fence(text) {
            fence() + seq!['\n'] + text + seq!['\n'] + fence() + seq!['\n']
        } else {
            text + seq!['\n']
        },
        StatementView::Link(resource, label) => if label.len() == 0 {
            seq!['=', '>', ' '] + resource.text + seq!['\n']
        } else {
            seq!['=', '>', ' '] + resource.text + seq![' '] + label + seq!['\n']
        },
        StatementView::ListItem(text) => seq!['*', ' '] + text + seq!['\n'],
        StatementView::Header(level, text) => markers(level) + seq![' '] + text + seq!['\n'],
    }
}

/// The text of a document: the texts of its statements, one after another.
pub open spec fn rendered(doc: Seq<StatementView>) -> Seq<char>
    decreases doc.len(),
{
    if doc.len() == 0 {
        Seq::empty()
    } else {
        rendered(doc.drop_last()) + rendered_statement(doc.last())
    }
}

/// The contents of a sequence of resources.
pub open spec fn resource_views(v: Seq<Resource>) -> Seq<ResourceView> {
    Seq::new(v.len(), |i: int| v[i]@)
}

/// The kind of a trimmed line.
pub fn line_kind(line: &Vec<char>) -> (kind: LineKind)
    ensures
        kind == kind_of(line@),
{
    let n = line.len();
    if n == 3 && line[0] == '`' && line[1] == '`' && line[2] == '`' {
        LineKind::Fence
    } else if n >= 2 && line[0] == '=' && line[1] == '>' {
        LineKind::Link
    } else if n >= 3 && line[0] == '#' && line[1] == '#' && line[2] == '#' {
        LineKind::Header(GeminiTextHeaderLevel::L3)
    } else if n >= 2 && line[0] == '#' && line[1] == '#' {
        LineKind::Header(GeminiTextHeaderLevel::L2)
    } else if n >= 1 && line[0] == '#' {
        LineKind::Header(GeminiTextHeaderLevel::L1)
    } else if n >= 1 && line[0] == '*' {
        LineKind::ListItem
    } else {
        LineKind::Plain
    }
}

/// The target token and the label of a link line.
pub fn split_link(line: &Vec<char>) -> (parts: (Vec<char>, Vec<char>))
    requires
        line@.len() >= 2,
    ensures
        (parts.0@, parts.1@) == link_parts(line@),
{
    let after = slice(line, 2, line.len());
    let rest = untab(&trimmed(&after));
    let p = find_from(&rest, 0, ' ');
    assert(rest@.skip(0) == rest@);
    if p < rest.len() {
        let target = slice(&rest, 0, p);
        let label = slice(&rest, p + 1, rest.len());
        (trimmed(&target), trimmed(&label))
    } else {
        (trimmed(&rest), Vec::new())
    }
}

/// The statement that a trimmed line outside preformatted mode stands for,
/// where `target` is what its link target resolves to.
pub fn read_statement(line: &Vec<char>, target: Option<Resource>) -> (s: Option<
    GeminiTextStatement,
>)
    ensures
        match s {
            Some(statement) => statement_of(line@, option_view(target)) == Some(statement@),
            None => statement_of(line@, option_view(target)) is None,
        },
{
    match line_kind(line) {
        LineKind::Fence => None,
        LineKind::Link => match target {
            Some(resource) => {
                let parts = split_link(line);
                Some(GeminiTextStatement::Link(resource, to_string(&parts.1)))
            },
            None => None,
        },
        LineKind::Header(level) => {
            let skip: usize = match level {
                GeminiTextHeaderLevel::L1 => 1,
                GeminiTextHeaderLevel::L2 => 2,
                GeminiTextHeaderLevel::L3 => 3,
            };
            let after = slice(line, skip, line.len());
            Some(GeminiTextStatement::Header(level, to_string(&trimmed(&after))))
        },
        LineKind::ListItem => {
            let after = slice(line, 1, line.len());
            Some(GeminiTextStatement::ListItem(to_string(&trimmed(&after))))
        },
        LineKind::Plain => Some(GeminiTextStatement::Line(to_string(line))),
    }
}

impl Clone for GeminiTextStatement {
    fn clone(&self) -> (s: Self)
        ensures
            s@ == self@,
    {
        match self {
            GeminiTextStatement::Line(t) => GeminiTextStatement::Line(t.clone()),
            GeminiTextStatement::Link(r, label) => GeminiTextStatement::Link(
                r.clone(),
                label.clone(),
            ),
            GeminiTextStatement::ListItem(t) => GeminiTextStatement::ListItem(t.clone()),
            GeminiTextStatement::Header(level, t) => GeminiTextStatement::Header(
                *level,
                t.clone(),
            ),
        }
    }
}

impl GeminiTextStatement {
    /// Appends the text of the statement, line terminator included, to `out`.
    pub fn write_to(&self, out: &mut Vec<char>)
        ensures
            final(out)@ == old(out)@ + rendered_statement(self@),
    {
        match self {
            GeminiTextStatement::Line(t) => {
                let text = to_chars(t.as_str());
                let inner = trimmed(&text);
                let fenced = !same(&inner, &text) || line_kind(&text) != LineKind::Plain;
                if fenced {
                    out.push('`');
                    out.push('`');
                    out.push('`');
                    out.push('\n');
                    extend(out, &text);
                    out.push('\n');
                    out.push('`');
                    out.push('`');
                    out.push('`');
                    out.push('\n');
                } else {
                    extend(out, &text);
                    out.push('\n');
                }
            },
            GeminiTextStatement::Link(r, label) => {
                out.push('=');
                out.push('>');
                out.push(' ');
                extend(out, &to_chars(r.as_str()));
                let label = to_chars(label.as_str());
                if label.len() != 0 {
                    out.push(' ');
                    extend(out, &label);
                }
                out.push('\n');
            },
            GeminiTextStatement::ListItem(t) => {
                out.push('*');
                out.push(' ');
                extend(out, &to_chars(t.as_str()));
                out.push('\n');
            },
            GeminiTextStatement::Header(level, t) => {
                out.push('#');
                match level {
                    GeminiTextHeaderLevel::L1 => {},
                    GeminiTextHeaderLevel::L2 => {
                        out.push('#');
                    },
                    GeminiTextHeaderLevel::L3 => {
                        out.push('#');
                        out.push('#');
                    },
                }
                out.push(' ');
                extend(out, &to_chars(t.as_str()));
                out.push('\n');
            },
        }
    }
}

impl Default for GeminiText {
    fn default() -> (text: GeminiText)
        ensures
            text@ == Seq::<StatementView>::empty(),
    {
        let text = GeminiText(Vec::new());
        text
    }
}

impl Clone for GeminiText {
    fn clone(&self) -> (text: Self)
        ensures
            text@ == self@,
    {
        let mut out: Vec<GeminiTextStatement> = Vec::new();
        let mut i: usize = 0;
        while i < self.0.len()
            invariant
                i <= self.0.len(),
                statement_views(out@) == self@.take(i as int),
            decreases self.0.len() - i,
        {
            let ghost before = statement_views(out@);
            let statement = self.0[i].clone();
            out.push(statement);
            assert(statement_views(out@) == before.push(statement@));
            i += 1;
        }
        GeminiText(out)
    }
}

impl GeminiText {
    /// The text of the document. Every statement is written on a line of its
    /// own; a line of plain text that would not be read back as it stands is
    /// written between fences.
    pub fn render(&self) -> (s: String)
        ensures
            s@ == rendered(self@),
    {
        let mut out: Vec<char> = Vec::new();
        let mut i: usize = 0;
        while i < self.0.len()
            invariant
                i <= self.0.len(),
                out@ == rendered(self@.take(i as int)),
            decreases self.0.len() - i,
        {
            proof {
                let upto = self@.take(i + 1);
                assert(upto.drop_last() == self@.take(i as int));
            }
            self.0[i].write_to(&mut out);
            i += 1;
        }
        assert(self@.take(self.0.len() as int) == self@);
        to_string(&out)
    }

    /// Parses the text `body` of a document fetched from `base_url`.
    ///
    /// Every line yields at most one statement, in the order of the text. A
    /// link whose target denotes no resource is left out; nothing else is,
    /// but the fences.
    pub fn new(body: &str, base_url: &Resource) -> (text: GeminiText)
        ensures
            text@ == parsed_text(body@, base_url@.text),
    {
        let chars = to_chars(body);
        let all = split_lines(&chars);
        let mut out: Vec<GeminiTextStatement> = Vec::new();
        let mut preformatted = false;
        let mut i: usize = 0;
        assert(statement_views(out@) == Seq::<StatementView>::empty());
        while i < all.len()
            invariant
                i <= all.len(),
                scan(views(all@).take(i as int), base_url@.text) == (ScanState {
                    statements: statement_views(out@),
                    preformatted,
                }),
            decreases all.len() - i,
        {
            let raw = &all[i];
            let line = trimmed(raw);
            let ghost before = statement_views(out@);
            proof {
                let upto = views(all@).take(i + 1);
                assert(upto.drop_last() == views(all@).take(i as int));
            }
            match line_kind(&line) {
                LineKind::Fence => {
                    preformatted = !preformatted;
                },
                LineKind::Link => {
                    if preformatted {
                        out.push(GeminiTextStatement::Line(to_string(raw)));
                        assert(statement_views(out@) == before.push(StatementView::Line(raw@)));
                    } else {
                        let parts = split_link(&line);
                        let target = base_url.resolve(to_string(&parts.0).as_str());
                        match read_statement(&line, target) {
                            Some(statement) => {
                                out.push(statement);
                                assert(statement_views(out@) == before.push(statement@));
                            },
                            None => {},
                        }
                    }
                },
                _ => {
                    if preformatted {
                        out.push(GeminiTextStatement::Line(to_string(raw)));
                        assert(statement_views(out@) == before.push(StatementView::Line(raw@)));
                    } else {
                        match read_statement(&line, None) {
                            Some(statement) => {
                                out.push(statement);
                                assert(statement_views(out@) == before.push(statement@));
                            },
                            None => {},
                        }
                    }
                },
            }
            i += 1;
        }
        assert(views(all@).take(all.len() as int) == views(all@));
        GeminiText(out)
    }

    /// The statements, in order.
    pub fn statements(&self) -> (v: &Vec<GeminiTextStatement>)
        ensures
            statement_views(v@) == self@,
    {
        &self.0
    }

    /// The number of statements.
    pub fn len(&self) -> (n: usize)
        ensures
            n == self@.len(),
    {
        self.0.len()
    }

    /// The targets of the links that use the crawler's own protocol, in the
    /// order of the document.
    pub fn gemini_urls(&self) -> (urls: Vec<Resource>)
        ensures
            resource_views(urls@) == gemini_links(self@),
    {
        let mut urls: Vec<Resource> = Vec::new();
        let mut i: usize = 0;
        while i < self.0.len()
            invariant
                i <= self.0.len(),
                resource_views(urls@) == gemini_links(self@.take(i as int)),
            decreases self.0.len() - i,
        {
            proof {
                let upto = self@.take(i + 1);
                assert(upto.drop_last() == self@.take(i as int));
            }
            match &self.0[i] {
                GeminiTextStatement::Link(resource, _) => {
                    if resource.is_gemini() {
                        urls.push(resource.clone());
                    }
                },
                _ => {},
            }
            i += 1;
        }
        assert(self@.take(self.0.len() as int) == self@);
        urls
    }
}

} // verus!
