//! Writing a document out and reading it back gives the document again.

use crate::document::{
    fence, is_fence, markers, needs_fence, parsed_text, rendered, rendered_statement, scan,
    scan_step, ScanState, StatementView,
};
use crate::resource::resolved;
use crate::text::{
    is_whitespace, lemma_position, lemma_position_is, lines, position, strip_cr, trim, trim_end,
    trim_start, untabbed,
};
use vstd::prelude::*;

verus! {

/// Whether `s` holds no line feed.
pub open spec fn no_newline(s: Seq<char>) -> bool {
    forall|i: int| 0 <= i < s.len() ==> s[i] != '\n'
}

/// Whether `s` holds no white space at all.
pub open spec fn no_whitespace(s: Seq<char>) -> bool {
    forall|i: int| 0 <= i < s.len() ==> !is_whitespace(#[trigger] s[i])
}

/// Whether `s` holds no tab.
pub open spec fn no_tab(s: Seq<char>) -> bool {
    forall|i: int| 0 <= i < s.len() ==> s[i] != '\t'
}

/// Whether `s` neither starts nor ends with white space.
pub open spec fn is_trimmed(s: Seq<char>) -> bool {
    s.len() == 0 || (!is_whitespace(s[0]) && !is_whitespace(s.last()))
}

/// Whether a statement can be written on lines of text and read back from
/// them, in a document fetched from `base`.
///
/// No text spans lines. A line of plain text is not a fence and does not end
/// with a carriage return. The texts of list items and headings and the
/// labels of links have no white space at their ends, and labels hold no
/// tab. The address of a link target holds no white space and denotes that
/// target.
pub open spec fn writable(s: StatementView, base: Seq<char>) -> bool {
    match s {
        StatementView::Line(text) => {
            &&& no_newline(text)
            &&& !is_fence(trim(text))
            &&& text.len() > 0 ==> text.last() != '\r'
        },
        StatementView::Link(resource, label) => {
            &&& resource.text.len() > 0
            &&& no_whitespace(resource.text)
            &&& resolved(base, resource.text) == Some(resource)
            &&& is_trimmed(label)
            &&& no_newline(label)
            &&& no_tab(label)
        },
        StatementView::ListItem(text) => is_trimmed(text) && no_newline(text),
        StatementView::Header(_, text) => is_trimmed(text) && no_newline(text),
    }
}

/// The state after reading `lines` from the state `state`.
pub open spec fn scan_from(state: ScanState, lines: Seq<Seq<char>>, base: Seq<char>) -> ScanState
    decreases lines.len(),
{
    if lines.len() == 0 {
        state
    } else {
        scan_step(scan_from(state, lines.drop_last(), base), lines.last(), base)
    }
}

/// Reading `first + rest` is reading `rest` from where reading `first` ends.
pub proof fn lemma_scan_concat(first: Seq<Seq<char>>, rest: Seq<Seq<char>>, base: Seq<char>)
    ensures
        scan(first + rest, base) == scan_from(scan(first, base), rest, base),
    decreases rest.len(),
{
    if rest.len() > 0 {
        assert((first + rest).drop_last() == first + rest.drop_last());
        lemma_scan_concat(first, rest.drop_last(), base);
    }
}

/// Where `a` holds `c`, the first `c` of `a + b` is the first `c` of `a`.
pub proof fn lemma_position_in_front(a: Seq<char>, b: Seq<char>, c: char)
    requires
        position(a, c) < a.len(),
    ensures
        position(a + b, c) == position(a, c),
{
    lemma_position(a, c);
    let p = position(a, c);
    lemma_position_is(a + b, c, p);
}

/// A text without line feed, followed by one, is one line.
pub proof fn lemma_lines_one(text: Seq<char>)
    requires
        no_newline(text),
    ensures
        lines(text + seq!['\n']) == seq![strip_cr(text)],
{
    let s = text + seq!['\n'];
    let p = text.len() as int;
    lemma_position_is(s, '\n', p);
    assert(s.take(p) == text);
    assert(lines(s.skip(p + 1)) == Seq::<Seq<char>>::empty());
}

/// The lines of a text that ends with a line feed, followed by more text,
/// are the lines of the one followed by the lines of the other.
pub proof fn lemma_lines_concat(a: Seq<char>, b: Seq<char>)
    requires
        a.len() == 0 || a.last() == '\n',
    ensures
        lines(a + b) == lines(a) + lines(b),
    decreases a.len(),
{
    if a.len() > 0 {
        lemma_position(a, '\n');
        let p = position(a, '\n');
        lemma_position_in_front(a, b, '\n');
        let tail = a.skip(p + 1);
        assert((a + b).take(p) == a.take(p));
        assert((a + b).skip(p + 1) == tail + b);
        lemma_lines_concat(tail, b);
    }
}

/// Trimming takes a leading space from a text that has no other white space
/// at its ends.
pub proof fn lemma_trim_led(s: Seq<char>)
    requires
        is_trimmed(s),
    ensures
        trim(seq![' '] + s) == s,
{
    let led = seq![' '] + s;
    assert(led.drop_first() == s);
    assert(trim_start(led) == trim_start(s));
}

/// A marker, a space and a text: trimmed, it is the marker alone where the
/// text is empty, and all of it otherwise. Either way the text is what
/// trimming leaves behind the marker.
pub proof fn lemma_trim_marked(marker: Seq<char>, text: Seq<char>)
    requires
        marker.len() > 0,
        no_whitespace(marker),
        is_trimmed(text),
    ensures
        trim(marker + seq![' '] + text) == if text.len() == 0 {
            marker
        } else {
            marker + seq![' '] + text
        },
        trim(trim(marker + seq![' '] + text).skip(marker.len() as int)) == text,
{
    let raw = marker + seq![' '] + text;
    if text.len() == 0 {
        assert(raw.drop_last() == marker);
        assert(trim_end(marker) == marker);
    } else {
        assert(raw.skip(marker.len() as int) == seq![' '] + text);
        lemma_trim_led(text);
    }
}

/// A text without tab is left as it is when tabs become spaces.
pub proof fn lemma_untabbed(s: Seq<char>)
    requires
        no_tab(s),
    ensures
        untabbed(s) == s,
{
}

/// [`lemma_reads_back`] for a plain line.
proof fn lemma_reads_back_line(state: ScanState, s: StatementView, base: Seq<char>)
    requires
        writable(s, base),
        !state.preformatted,
        s is Line,
    ensures
        rendered_statement(s).len() > 0,
        rendered_statement(s).last() == '\n',
        scan_from(state, lines(rendered_statement(s)), base) == (ScanState {
            statements: state.statements.push(s),
            preformatted: false,
        }),
{
    let nl = seq!['\n'];
    let text = s->Line_0;
    if needs_fence(text) {
        let f = fence() + nl;
        let t = text + nl;
        assert(rendered_statement(s) == f + (t + f));
        lemma_lines_one(fence());
        lemma_lines_one(text);
        lemma_lines_concat(t, f);
        lemma_lines_concat(f, t + f);
        let ls = lines(rendered_statement(s));
        let s0 = state;
        let s1 = ScanState { statements: state.statements, preformatted: true };
        let l1 = seq![fence()];
        let l2 = seq![fence(), text];
        assert(scan_from(s0, l1.drop_last(), base) == s0);
        assert(scan_from(s0, l1, base) == scan_step(s0, fence(), base));
        assert(l2.drop_last() == l1);
        assert(scan_from(s0, l2, base) == scan_step(s1, text, base));
        assert(ls.drop_last() == l2);
    } else {
        lemma_lines_one(text);
        let ls = seq![text];
        assert(scan_from(state, ls.drop_last(), base) == state);
    }
}

/// [`lemma_reads_back`] for a link.
proof fn lemma_reads_back_link(state: ScanState, s: StatementView, base: Seq<char>)
    requires
        writable(s, base),
        !state.preformatted,
        s is Link,
    ensures
        rendered_statement(s).len() > 0,
        rendered_statement(s).last() == '\n',
        scan_from(state, lines(rendered_statement(s)), base) == (ScanState {
            statements: state.statements.push(s),
            preformatted: false,
        }),
{
    let nl = seq!['\n'];
    let resource = s->Link_0;
    let label = s->Link_1;
    let arrow = seq!['=', '>'];
    let shown = if label.len() == 0 {
        resource.text
    } else {
        resource.text + seq![' '] + label
    };
    let raw = arrow + seq![' '] + shown;
    assert(rendered_statement(s) == raw + nl);
    lemma_lines_one(raw);
    let ls = seq![raw];
    assert(scan_from(state, ls.drop_last(), base) == state);
    lemma_trim_marked(arrow, shown);
    lemma_untabbed(shown);
    let p = resource.text.len() as int;
    lemma_position_is(shown, ' ', p);
    if label.len() == 0 {
        assert(label == Seq::<char>::empty());
    } else {
        assert(shown.take(p) == resource.text);
        assert(shown.skip(p + 1) == label);
    }
}

/// [`lemma_reads_back`] for a list item.
proof fn lemma_reads_back_item(state: ScanState, s: StatementView, base: Seq<char>)
    requires
        writable(s, base),
        !state.preformatted,
        s is ListItem,
    ensures
        rendered_statement(s).len() > 0,
        rendered_statement(s).last() == '\n',
        scan_from(state, lines(rendered_statement(s)), base) == (ScanState {
            statements: state.statements.push(s),
            preformatted: false,
        }),
{
    let nl = seq!['\n'];
    let text = s->ListItem_0;
    let star = seq!['*'];
    let raw = star + seq![' '] + text;
    assert(rendered_statement(s) == raw + nl);
    lemma_lines_one(raw);
    let ls = seq![raw];
    assert(scan_from(state, ls.drop_last(), base) == state);
    lemma_trim_marked(star, text);
}

/// [`lemma_reads_back`] for a heading.
proof fn lemma_reads_back_heading(state: ScanState, s: StatementView, base: Seq<char>)
    requires
        writable(s, base),
        !state.preformatted,
        s is Header,
    ensures
        rendered_statement(s).len() > 0,
        rendered_statement(s).last() == '\n',
        scan_from(state, lines(rendered_statement(s)), base) == (ScanState {
            statements: state.statements.push(s),
            preformatted: false,
        }),
{
    let level = s->Header_0;
    let text = s->Header_1;
    let m = markers(level);
    let raw = m + seq![' '] + text;
    lemma_lines_one(raw);
    let ls = seq![raw];
    assert(scan_from(state, ls.drop_last(), base) == state);
    lemma_trim_marked(m, text);
}

/// What reading back the lines of a written statement adds to a state
/// outside preformatted mode: that statement.
pub proof fn lemma_reads_back(state: ScanState, s: StatementView, base: Seq<char>)
    requires
        writable(s, base),
        !state.preformatted,
    ensures
        rendered_statement(s).len() > 0,
        rendered_statement(s).last() == '\n',
        scan_from(state, lines(rendered_statement(s)), base) == (ScanState {
            statements: state.statements.push(s),
            preformatted: false,
        }),
{
    match s {
        StatementView::Line(_) => lemma_reads_back_line(state, s, base),
        StatementView::Link(_, _) => lemma_reads_back_link(state, s, base),
        StatementView::ListItem(_) => lemma_reads_back_item(state, s, base),
        StatementView::Header(_, _) => lemma_reads_back_heading(state, s, base),
    }
}

/// Whether a statement is no fence: it is not a line of plain text that,
/// trimmed, is three backticks.
pub open spec fn is_content(s: StatementView) -> bool {
    match s {
        StatementView::Line(text) => !is_fence(trim(text)),
        _ => true,
    }
}

/// Fences are never content. Whatever the lines, reading them yields at
/// most one statement for each, and none of the statements is a fence.
pub proof fn law_fences_are_no_content(all: Seq<Seq<char>>, base: Seq<char>)
    ensures
        scan(all, base).statements.len() <= all.len(),
        forall|i: int|
            0 <= i < scan(all, base).statements.len() ==> is_content(
                #[trigger] scan(all, base).statements[i],
            ),
    decreases all.len(),
{
    if all.len() > 0 {
        let raw = all.last();
        law_fences_are_no_content(all.drop_last(), base);
        crate::text::lemma_trim_is_trimmed(raw);
    }
}

/// Writing and reading round-trip. A document of writable statements,
/// written out and parsed again, is the same document: the same statements
/// in the same order. Lines of plain text that were written between fences
/// come back as they were, and no fence comes back as content.
pub proof fn law_render_parse_round_trip(doc: Seq<StatementView>, base: Seq<char>)
    requires
        forall|i: int| 0 <= i < doc.len() ==> writable(#[trigger] doc[i], base),
    ensures
        parsed_text(rendered(doc), base) == doc,
        scan(lines(rendered(doc)), base) == (ScanState { statements: doc, preformatted: false }),
        rendered(doc).len() == 0 || rendered(doc).last() == '\n',
    decreases doc.len(),
{
    if doc.len() > 0 {
        let front = doc.drop_last();
        let last = doc.last();
        law_render_parse_round_trip(front, base);
        let state = ScanState { statements: front, preformatted: false };
        lemma_reads_back(state, last, base);
        lemma_lines_concat(rendered(front), rendered_statement(last));
        lemma_scan_concat(lines(rendered(front)), lines(rendered_statement(last)), base);
        assert(front.push(last) == doc);
    }
}

} // verus!
