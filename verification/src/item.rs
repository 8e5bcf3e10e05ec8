//! List items: ordered display lines of styled text segments, and the
//! match-highlighting rewrite that isolates a matched substring.

use crate::matching::{fuzzy_first_index, fuzzy_index_of, fuzzy_matches};
use crate::style::{raw_style, Color, Style};
use vstd::prelude::*;
use vstd::string::{StrSliceExecFns, StringExecFns};

verus! {

/// One styled text segment of a display line.
pub struct Span {
    pub content: String,
    pub style: Style,
}

/// The mathematical model of a segment: its characters and its style.
pub ghost struct SpanView {
    pub text: Seq<char>,
    pub style: Style,
}

impl View for Span {
    type V = SpanView;

    open spec fn view(&self) -> SpanView {
        SpanView { text: self.content@, style: self.style }
    }
}

impl Span {
    /// A segment with the plain (default) style.
    pub fn raw(content: String) -> (r: Span)
        ensures
            r@ == (SpanView { text: content@, style: raw_style() }),
    {
        Span { content, style: Style::default() }
    }

    /// A segment with the given style.
    pub fn styled(content: String, style: Style) -> (r: Span)
        ensures
            r@ == (SpanView { text: content@, style }),
    {
        Span { content, style }
    }
}

impl Clone for Span {
    fn clone(&self) -> (r: Self)
        ensures
            r == *self,
    {
        Span { content: self.content.clone(), style: self.style }
    }
}

/// The model of a sequence of segments.
pub open spec fn spans_view(spans: Seq<Span>) -> Seq<SpanView> {
    spans.map_values(|s: Span| s@)
}

/// One display line: an ordered sequence of styled segments.
pub struct Line {
    pub spans: Vec<Span>,
}

impl View for Line {
    type V = Seq<SpanView>;

    open spec fn view(&self) -> Seq<SpanView> {
        spans_view(self.spans@)
    }
}

impl Line {
    /// A line made of the given segments.
    pub fn from_spans(spans: Vec<Span>) -> (r: Line)
        ensures
            r@ == spans_view(spans@),
    {
        Line { spans }
    }

    /// A line holding one plainly styled segment.
    pub fn raw(content: String) -> (r: Line)
        ensures
            r@ == seq![SpanView { text: content@, style: raw_style() }],
    {
        let spans = vec![Span::raw(content)];
        assert(spans_view(spans@) =~= seq![spans@[0]@]);
        Line { spans }
    }
}

impl Clone for Line {
    fn clone(&self) -> (r: Self)
        ensures
            r@ == self@,
    {
        let mut spans: Vec<Span> = Vec::new();
        let k = self.spans.len();
        for i in 0..k
            invariant
                k == self.spans.len(),
                spans@ == self.spans@.take(i as int),
        {
            spans.push(self.spans[i].clone());
            proof {
                assert(spans@ =~= self.spans@.take(i + 1));
            }
        }
        proof {
            assert(self.spans@.take(k as int) =~= self.spans@);
        }
        Line { spans }
    }
}

/// The model of a sequence of lines.
pub open spec fn lines_view(lines: Seq<Line>) -> Seq<Seq<SpanView>> {
    lines.map_values(|l: Line| l@)
}

/// One entry of the list: one or more display lines, a base style, and the
/// style given to the substring that satisfied a filter.
pub struct FuzzyListItem {
    pub lines: Vec<Line>,
    pub style: Style,
    pub filter_style: Style,
}

/// The mathematical model of an item.
pub ghost struct ItemView {
    pub lines: Seq<Seq<SpanView>>,
    pub style: Style,
    pub filter_style: Style,
}

impl View for FuzzyListItem {
    type V = ItemView;

    open spec fn view(&self) -> ItemView {
        ItemView { lines: lines_view(self.lines@), style: self.style, filter_style: self.filter_style }
    }
}

/// The line model of an item constructed from no lines: one empty line.
pub open spec fn empty_item_lines() -> Seq<Seq<SpanView>> {
    seq![seq![SpanView { text: Seq::empty(), style: raw_style() }]]
}

/// Where the highlighted range of a segment of `len` characters starts and
/// ends for a reported match position `idx` and a query of `qlen`
/// characters: a range of `min(qlen, len)` characters starting at `idx`,
/// shifted left as needed so that it stays inside the segment.
pub open spec fn highlight_bounds(len: int, idx: int, qlen: int) -> (int, int) {
    let q2 = if qlen <= len {
        qlen
    } else {
        len
    };
    let s = if idx <= len - q2 {
        idx
    } else {
        len - q2
    };
    (s, s + q2)
}

/// The segments that replace a matched segment: up to three, isolating the
/// highlighted range, the prefix and suffix omitted when empty and plainly
/// styled otherwise.
pub open spec fn split_segments(
    text: Seq<char>,
    idx: int,
    qlen: int,
    match_style: Style,
) -> Seq<SpanView> {
    let (s, e) = highlight_bounds(text.len() as int, idx, qlen);
    let pre = if s > 0 {
        seq![SpanView { text: text.subrange(0, s), style: raw_style() }]
    } else {
        Seq::<SpanView>::empty()
    };
    let suf = if e < text.len() {
        seq![SpanView { text: text.subrange(e, text.len() as int), style: raw_style() }]
    } else {
        Seq::<SpanView>::empty()
    };
    pre + seq![SpanView { text: text.subrange(s, e), style: match_style }] + suf
}

/// What one segment becomes under the match rewrite: split around the
/// reported match, or passed through unchanged when the query does not
/// match it.
pub open spec fn rewrite_span(sv: SpanView, q: Seq<char>, match_style: Style) -> Seq<SpanView> {
    match fuzzy_index_of(sv.text, q) {
        Some(i) => split_segments(sv.text, i as int, q.len() as int, match_style),
        None => seq![sv],
    }
}

/// What one line becomes under the match rewrite.
pub open spec fn rewrite_line(line: Seq<SpanView>, q: Seq<char>, match_style: Style) -> Seq<
    SpanView,
> {
    line.map_values(|sv: SpanView| rewrite_span(sv, q, match_style)).flatten()
}

/// Whether some segment of the line fuzzy-matches the query.
pub open spec fn line_matched(line: Seq<SpanView>, q: Seq<char>) -> bool {
    exists|j: int| 0 <= j < line.len() && fuzzy_matches(#[trigger] line[j].text, q)
}

/// What a whole item becomes under the match rewrite: every line rewritten,
/// the highlighted ranges carrying the item's filter style.
pub open spec fn rewrite_item(iv: ItemView, q: Seq<char>) -> ItemView {
    ItemView { lines: iv.lines.map_values(|l: Seq<SpanView>| rewrite_line(l, q, iv.filter_style)), ..iv }
}

/// Whether some segment of some line of the item fuzzy-matches the query.
pub open spec fn item_matched(iv: ItemView, q: Seq<char>) -> bool {
    exists|i: int| 0 <= i < iv.lines.len() && line_matched(#[trigger] iv.lines[i], q)
}

/// Replaces a matched segment's text by up to three segments isolating the
/// highlighted range, which carries `match_style`. A match position from
/// the matcher is clamped so that the range stays inside the segment.
fn split_match(text: &str, idx: usize, qlen: usize, match_style: Style) -> (v: Vec<Span>)
    ensures
        spans_view(v@) == split_segments(text@, idx as int, qlen as int, match_style),
{
    let n = text.unicode_len();
    let q2 = if qlen < n {
        qlen
    } else {
        n
    };
    let s = if idx < n - q2 {
        idx
    } else {
        n - q2
    };
    let e = s + q2;
    let mut v: Vec<Span> = Vec::new();
    if s > 0 {
        v.push(Span::raw(text.substring_char(0, s).to_owned()));
    }
    v.push(Span::styled(text.substring_char(s, e).to_owned(), match_style));
    if e < n {
        v.push(Span::raw(text.substring_char(e, n).to_owned()));
    }
    proof {
        assert(spans_view(v@) =~= split_segments(text@, idx as int, qlen as int, match_style));
    }
    v
}

/// Rewrites one line for the query: each matched segment is split around
/// its match, unmatched segments pass through unchanged. Also reports
/// whether any segment matched.
fn rewrite_line_exec(line: &Line, filter: &str, match_style: Style) -> (r: (Line, bool))
    requires
        filter@.len() >= 1,
    ensures
        r.0@ == rewrite_line(line@, filter@, match_style),
        r.1 == line_matched(line@, filter@),
{
    let qlen = filter.unicode_len();
    let mut new_spans: Vec<Span> = Vec::new();
    let mut m = false;
    let k = line.spans.len();
    for sj in 0..k
        invariant
            k == line.spans.len(),
            qlen == filter@.len(),
            filter@.len() >= 1,
            spans_view(new_spans@) == rewrite_line(line@.take(sj as int), filter@, match_style),
            m == line_matched(line@.take(sj as int), filter@),
    {
        let sp = &line.spans[sj];
        let ghost prefix = line@.take(sj as int);
        let ghost before = new_spans@;
        match fuzzy_first_index(sp.content.as_str(), filter) {
            Some(idx) => {
                m = true;
                let mut parts = split_match(sp.content.as_str(), idx, qlen, match_style);
                proof {
                    assert(spans_view(parts@) == rewrite_span(sp@, filter@, match_style));
                }
                new_spans.append(&mut parts);
            },
            None => {
                new_spans.push(sp.clone());
                proof {
                    assert(spans_view(new_spans@) =~= spans_view(before) + seq![sp@]);
                    assert(seq![sp@] == rewrite_span(sp@, filter@, match_style));
                }
            },
        }
        proof {
            let f = |sv: SpanView| rewrite_span(sv, filter@, match_style);
            assert(spans_view(new_spans@) =~= spans_view(before) + rewrite_span(
                sp@,
                filter@,
                match_style,
            ));
            assert(line@.take(sj + 1) =~= prefix.push(line@[sj as int]));
            assert(line@.take(sj + 1).map_values(f) =~= prefix.map_values(f).push(
                f(line@[sj as int]),
            ));
            prefix.map_values(f).lemma_flatten_push(f(line@[sj as int]));
            assert(spans_view(new_spans@) == rewrite_line(line@.take(sj + 1), filter@, match_style));
            assert(line_matched(line@.take(sj + 1), filter@) == (line_matched(prefix, filter@)
                || fuzzy_matches(line@[sj as int].text, filter@))) by {
                if line_matched(line@.take(sj + 1), filter@) {
                    let j = choose|j: int|
                        0 <= j < line@.take(sj + 1).len() && fuzzy_matches(
                            #[trigger] line@.take(sj + 1)[j].text,
                            filter@,
                        );
                    if j < sj {
                        assert(prefix[j] == line@.take(sj + 1)[j]);
                        assert(fuzzy_matches(prefix[j].text, filter@));
                    } else {
                        assert(line@.take(sj + 1)[j] == line@[sj as int]);
                    }
                }
                if line_matched(prefix, filter@) {
                    let j = choose|j: int|
                        0 <= j < prefix.len() && fuzzy_matches(#[trigger] prefix[j].text, filter@);
                    assert(line@.take(sj + 1)[j] == prefix[j]);
                    assert(fuzzy_matches(line@.take(sj + 1)[j].text, filter@));
                }
                if fuzzy_matches(line@[sj as int].text, filter@) {
                    assert(line@.take(sj + 1)[sj as int] == line@[sj as int]);
                    assert(fuzzy_matches(line@.take(sj + 1)[sj as int].text, filter@));
                }
            };
        }
    }
    proof {
        assert(line@.take(k as int) =~= line@);
    }
    (Line { spans: new_spans }, m)
}

impl FuzzyListItem {
    /// Constructs an item from its display lines, with the default base
    /// style and a red filter style. An item has at least one line: given
    /// none, it holds one empty line.
    pub fn new(lines: Vec<Line>) -> (r: FuzzyListItem)
        ensures
            r@.lines == if lines@.len() == 0 {
                empty_item_lines()
            } else {
                lines_view(lines@)
            },
            r@.style == raw_style(),
            r@.filter_style == (Style {
                fg: Some(Color::Red),
                bg: None,
                add_modifier: 0,
                sub_modifier: 0,
            }),
    {
        let mut lines = lines;
        if lines.len() == 0 {
            lines.push(Line::raw(String::new()));
            proof {
                assert(lines_view(lines@) =~= empty_item_lines());
            }
        }
        FuzzyListItem {
            lines,
            style: Style::default(),
            filter_style: Style::default().fg(Color::Red),
        }
    }

    /// Replaces the base style.
    pub fn style(self, style: Style) -> (r: FuzzyListItem)
        ensures
            r@ == (ItemView { style, ..self@ }),
    {
        FuzzyListItem { style, ..self }
    }

    /// Replaces the style given to matched substrings.
    pub fn filter_style(self, filter_style: Style) -> (r: FuzzyListItem)
        ensures
            r@ == (ItemView { filter_style, ..self@ }),
    {
        FuzzyListItem { filter_style, ..self }
    }

    /// The item's height: its number of display lines.
    pub fn height(&self) -> (h: usize)
        ensures
            h == self@.lines.len(),
    {
        self.lines.len()
    }

    /// Tests the item against the query and rewrites its lines in place for
    /// highlighting: every matched segment is split around its match, which
    /// carries the item's filter style. Returns whether any segment of any
    /// line matched.
    pub fn matches(&mut self, filter: &str) -> (b: bool)
        requires
            filter@.len() >= 1,
        ensures
            final(self)@ == rewrite_item(old(self)@, filter@),
            b == item_matched(old(self)@, filter@),
    {
        let ghost orig = *self;
        let mut matched = false;
        let n = self.lines.len();
        for li in 0..n
            invariant
                n == self.lines.len(),
                n == orig.lines@.len(),
                self.style == orig.style,
                self.filter_style == orig.filter_style,
                filter@.len() >= 1,
                forall|k: int| li <= k < n ==> self.lines@[k] == orig.lines@[k],
                forall|k: int|
                    0 <= k < li ==> (#[trigger] self.lines@[k])@ == rewrite_line(
                        orig.lines@[k]@,
                        filter@,
                        orig.filter_style,
                    ),
                matched == exists|k: int|
                    0 <= k < li && line_matched((#[trigger] orig.lines@[k])@, filter@),
        {
            let (new_line, m) = rewrite_line_exec(&self.lines[li], filter, self.filter_style);
            self.lines.set(li, new_line);
            if m {
                matched = true;
            }
            proof {
                if matched && !m {
                    assert(exists|k: int|
                        0 <= k < li && line_matched((#[trigger] orig.lines@[k])@, filter@));
                }
                if m {
                    assert(line_matched((orig.lines@[li as int])@, filter@));
                }
            }
        }
        proof {
            assert(self@.lines =~= rewrite_item(orig@, filter@).lines);
            assert(matched == item_matched(orig@, filter@)) by {
                if matched {
                    let k = choose|k: int|
                        0 <= k < n && line_matched((#[trigger] orig.lines@[k])@, filter@);
                    assert(orig@.lines[k] == (orig.lines@[k])@);
                    assert(item_matched(orig@, filter@));
                }
                if item_matched(orig@, filter@) {
                    let k = choose|k: int|
                        0 <= k < orig@.lines.len() && line_matched(#[trigger] orig@.lines[k], filter@);
                    assert((orig.lines@[k])@ == orig@.lines[k]);
                }
            }
        }
        matched
    }
}

impl Clone for FuzzyListItem {
    fn clone(&self) -> (r: Self)
        ensures
            r@ == self@,
    {
        let mut lines: Vec<Line> = Vec::new();
        let k = self.lines.len();
        for i in 0..k
            invariant
                k == self.lines.len(),
                lines@.len() == i,
                forall|j: int| 0 <= j < i ==> (#[trigger] lines@[j])@ == (self.lines@[j])@,
        {
            lines.push(self.lines[i].clone());
        }
        proof {
            assert(lines_view(lines@) =~= lines_view(self.lines@));
        }
        FuzzyListItem { lines, style: self.style, filter_style: self.filter_style }
    }
}

} // verus!
