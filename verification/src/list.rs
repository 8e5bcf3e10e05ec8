//! The viewport windowing algorithm: which contiguous range of the active
//! list is displayed, given limited vertical space, keeping the selected
//! item visible while minimizing offset jumps.

use crate::item::{FuzzyListItem, ItemView};
use crate::state::{items_view, FuzzyListState, StateView};
use crate::style::Style;
use vstd::prelude::*;

verus! {

/// The corner of the rendering area where the first visible item is drawn.
#[derive(Clone, Copy, PartialEq, Eq, Debug)]
pub enum Corner {
    TopLeft,
    TopRight,
    BottomLeft,
    BottomRight,
}

/// The height of the item at position `i`: its number of display lines.
pub open spec fn item_h(iv: Seq<ItemView>, i: int) -> int {
    iv[i].lines.len() as int
}

/// The total height of the items in positions `[start, end)`.
pub open spec fn heights_sum(iv: Seq<ItemView>, start: int, end: int) -> int
    decreases end - start,
{
    if start >= end {
        0
    } else {
        heights_sum(iv, start, end - 1) + item_h(iv, end - 1)
    }
}

proof fn lemma_sum_nonneg(iv: Seq<ItemView>, start: int, end: int)
    ensures
        heights_sum(iv, start, end) >= 0,
    decreases end - start,
{
    if start < end {
        lemma_sum_nonneg(iv, start, end - 1);
    }
}

/// The sum over `[start, end)` splits off its first item.
proof fn lemma_sum_left(iv: Seq<ItemView>, start: int, end: int)
    requires
        start < end,
    ensures
        heights_sum(iv, start, end) == item_h(iv, start) + heights_sum(iv, start + 1, end),
    decreases end - start,
{
    assert(heights_sum(iv, start, end) == heights_sum(iv, start, end - 1) + item_h(iv, end - 1));
    if start + 1 < end {
        lemma_sum_left(iv, start, end - 1);
        assert(heights_sum(iv, start + 1, end) == heights_sum(iv, start + 1, end - 1) + item_h(
            iv,
            end - 1,
        ));
    } else {
        assert(heights_sum(iv, start, end - 1) == 0);
        assert(heights_sum(iv, start + 1, end) == 0);
    }
}

/// The sum over `[start, end)` splits at any middle position.
proof fn lemma_sum_split(iv: Seq<ItemView>, start: int, mid: int, end: int)
    requires
        start <= mid <= end,
    ensures
        heights_sum(iv, start, end) == heights_sum(iv, start, mid) + heights_sum(iv, mid, end),
    decreases end - mid,
{
    if mid < end {
        lemma_sum_split(iv, start, mid + 1, end);
        lemma_sum_left(iv, mid, end);
    }
}

/// A sum over a subrange is no more than the sum over an enclosing range.
proof fn lemma_sum_bound(iv: Seq<ItemView>, a: int, start: int, end: int, b: int)
    requires
        a <= start <= end <= b,
    ensures
        heights_sum(iv, start, end) <= heights_sum(iv, a, b),
{
    lemma_sum_split(iv, a, start, b);
    lemma_sum_split(iv, start, end, b);
    lemma_sum_nonneg(iv, a, start);
    lemma_sum_nonneg(iv, end, b);
}

/// When every item in `[start, end)` is at least one line tall, the range's
/// total height is at least its item count.
proof fn lemma_sum_at_least_count(iv: Seq<ItemView>, start: int, end: int)
    requires
        start <= end,
        forall|i: int| start <= i < end ==> item_h(iv, i) >= 1,
    ensures
        heights_sum(iv, start, end) >= end - start,
    decreases end - start,
{
    if start < end {
        lemma_sum_at_least_count(iv, start, end - 1);
    }
}

/// The end of the window grown greedily forward from `off`, starting at
/// position `e`: items are taken one at a time as long as the total height
/// from `off` stays within the budget.
pub open spec fn grow_from(iv: Seq<ItemView>, off: int, e: int, max_height: int) -> int
    decreases iv.len() - e,
{
    if e < iv.len() && heights_sum(iv, off, e + 1) <= max_height {
        grow_from(iv, off, e + 1, max_height)
    } else {
        e
    }
}

/// The end of the natural window: the window grown greedily forward from
/// `off` until the height budget is reached or the items run out.
pub open spec fn natural_end(iv: Seq<ItemView>, off: int, max_height: int) -> int {
    grow_from(iv, off, off, max_height)
}

/// An index clamped to stay below `len`.
pub open spec fn clamp_to_len(i: int, len: int) -> int {
    if i < len {
        i
    } else {
        len - 1
    }
}

/// The selected position the windowing computation aims at: the selected
/// index (or the first item when there is no selection), clamped so that an
/// index at or past the end points at the last item.
pub open spec fn sel_index(selected: Option<usize>, len: int) -> int {
    clamp_to_len(
        match selected {
            Some(s) => s as int,
            None => 0,
        },
        len,
    )
}

/// What the computed window `r == (start, end)` guarantees for an item
/// sequence `iv`, a selection, a previous offset, and a height budget.
/// Writing `offc` and `selc` for the clamped offset and selected position:
/// the range is within bounds and fits the budget; it contains `selc`
/// whenever that item alone fits the budget; scrolling is monotone — a
/// selection at or below the previous offset never moves the window start
/// above it; when the natural window (grown forward from `offc`) already
/// reaches the selection, the window is exactly the natural window; when
/// the selection lies below the natural window, the window ends right
/// after the selection and starts as high as the budget allows; and when
/// the selection lies above the previous offset, the window starts exactly
/// at the selection and extends down as far as the budget allows.
pub open spec fn window_ok(
    iv: Seq<ItemView>,
    selected: Option<usize>,
    offset: usize,
    max_height: usize,
    r: (usize, usize),
) -> bool {
    let len = iv.len() as int;
    let offc = clamp_to_len(offset as int, len);
    let selc = sel_index(selected, len);
    let nend = natural_end(iv, offc, max_height as int);
    &&& len > 0
    &&& r.0 <= selc
    &&& r.0 <= r.1 <= len
    &&& heights_sum(iv, r.0 as int, r.1 as int) <= max_height
    &&& (item_h(iv, selc) <= max_height ==> selc < r.1)
    &&& (selc >= offc ==> r.0 >= offc)
    &&& (offc <= selc < nend ==> r.0 == offc && r.1 == nend)
    &&& (item_h(iv, selc) <= max_height && selc >= nend ==> r.1 == selc + 1 && (r.0 == offc
        || heights_sum(iv, r.0 - 1, selc + 1) > max_height))
    &&& (selc < offc ==> r.0 == selc && (r.1 == nend || heights_sum(iv, selc, r.1 + 1)
        > max_height))
}

/// A list widget: the items to display and how to present them.
pub struct FuzzyList {
    pub items: Vec<FuzzyListItem>,
    pub style: Style,
    pub start_corner: Corner,
    pub highlight_style: Style,
    pub highlight_symbol: Option<String>,
    pub repeat_highlight_symbol: bool,
}

impl FuzzyList {
    /// A widget displaying the given items, drawn from the top left with no
    /// highlighting decoration.
    pub fn new(items: Vec<FuzzyListItem>) -> (r: FuzzyList)
        ensures
            r.items == items,
            r.style == crate::style::raw_style(),
            r.start_corner == Corner::TopLeft,
            r.highlight_style == crate::style::raw_style(),
            r.highlight_symbol is None,
            r.repeat_highlight_symbol == false,
    {
        FuzzyList {
            items,
            style: Style::default(),
            start_corner: Corner::TopLeft,
            highlight_style: Style::default(),
            highlight_symbol: None,
            repeat_highlight_symbol: false,
        }
    }

    /// Replaces the widget's base style.
    pub fn style(self, style: Style) -> (r: FuzzyList)
        ensures
            r == (FuzzyList { style, ..self }),
    {
        FuzzyList { style, ..self }
    }

    /// Sets the symbol drawn in front of the selected item.
    pub fn highlight_symbol(self, highlight_symbol: String) -> (r: FuzzyList)
        ensures
            r == (FuzzyList { highlight_symbol: Some(highlight_symbol), ..self }),
    {
        FuzzyList { highlight_symbol: Some(highlight_symbol), ..self }
    }

    /// Replaces the style of the selected item.
    pub fn highlight_style(self, highlight_style: Style) -> (r: FuzzyList)
        ensures
            r == (FuzzyList { highlight_style, ..self }),
    {
        FuzzyList { highlight_style, ..self }
    }

    /// Sets whether the highlight symbol repeats on every line of the
    /// selected item rather than only its first.
    pub fn repeat_highlight_symbol(self, repeat: bool) -> (r: FuzzyList)
        ensures
            r == (FuzzyList { repeat_highlight_symbol: repeat, ..self }),
    {
        FuzzyList { repeat_highlight_symbol: repeat, ..self }
    }

    /// Sets the corner the items are drawn from.
    pub fn start_corner(self, corner: Corner) -> (r: FuzzyList)
        ensures
            r == (FuzzyList { start_corner: corner, ..self }),
    {
        FuzzyList { start_corner: corner, ..self }
    }

    /// Computes the inclusive-exclusive range of items to display: grows a
    /// window forward from the previous offset until the height budget is
    /// reached, then slides it down or up one item at a time until it
    /// contains the selected position, shrinking from the opposite side
    /// whenever the budget is exceeded.
    pub fn get_items_bounds(&self, selected: Option<usize>, offset: usize, max_height: usize) -> (r:
        (usize, usize))
        requires
            self.items@.len() > 0,
            heights_sum(items_view(self.items@), 0, self.items@.len() as int) <= usize::MAX,
        ensures
            window_ok(items_view(self.items@), selected, offset, max_height, r),
    {
        let ghost iv = items_view(self.items@);
        let len = self.items.len();
        let off = if offset < len - 1 {
            offset
        } else {
            len - 1
        };
        let mut start = off;
        let mut end = off;
        let mut height: usize = 0;
        while end < len
            invariant
                iv == items_view(self.items@),
                len == self.items@.len(),
                0 < len,
                off < len,
                heights_sum(iv, 0, len as int) <= usize::MAX,
                off <= end <= len,
                height == heights_sum(iv, off as int, end as int),
                height <= max_height,
                natural_end(iv, off as int, max_height as int) == grow_from(
                    iv,
                    off as int,
                    end as int,
                    max_height as int,
                ),
            ensures
                off <= end <= len,
                height == heights_sum(iv, off as int, end as int),
                height <= max_height,
                end == natural_end(iv, off as int, max_height as int),
            decreases len - end,
        {
            let h = self.items[end].height();
            proof {
                lemma_sum_bound(iv, 0, off as int, end + 1, len as int);
            }
            if height + h > max_height {
                proof {
                    assert(grow_from(iv, off as int, end as int, max_height as int) == end);
                }
                break ;
            }
            height = height + h;
            end = end + 1;
        }
        let ghost end_a = end;

        let sel = match selected {
            Some(s) => s,
            None => 0,
        };
        let sel = if sel < len - 1 {
            sel
        } else {
            len - 1
        };

        while sel >= end
            invariant
                iv == items_view(self.items@),
                len == self.items@.len(),
                0 < len,
                off < len,
                sel < len,
                heights_sum(iv, 0, len as int) <= usize::MAX,
                start <= end <= len,
                height == heights_sum(iv, start as int, end as int),
                height <= max_height,
                start >= off,
                end_a <= end,
                sel < end_a ==> start == off && end == end_a,
                end_a <= len,
                off <= end_a,
                sel >= end_a ==> end as int <= sel as int + 1,
                sel >= end_a && item_h(iv, sel as int) <= max_height ==> start <= sel,
                start == off || heights_sum(iv, start - 1, end as int) > max_height,
            decreases sel + 1 - end,
        {
            let h = self.items[end].height();
            proof {
                lemma_sum_bound(iv, 0, start as int, end + 1, len as int);
                lemma_sum_nonneg(iv, start as int, end as int);
                if start > off {
                    assert(heights_sum(iv, start - 1, end + 1) == heights_sum(iv, start - 1, end as int)
                        + item_h(iv, end as int));
                }
            }
            height = height + h;
            end = end + 1;
            while height > max_height
                invariant
                    iv == items_view(self.items@),
                    len == self.items@.len(),
                    sel < len,
                    start <= end <= len,
                    end as int <= sel as int + 1,
                    height == heights_sum(iv, start as int, end as int),
                    start >= off,
                    item_h(iv, sel as int) <= max_height ==> start <= sel,
                    start == off || heights_sum(iv, start - 1, end as int) > max_height,
                decreases end - start,
            {
                proof {
                    if start == end {
                        assert(heights_sum(iv, start as int, end as int) == 0);
                    }
                    lemma_sum_left(iv, start as int, end as int);
                    lemma_sum_nonneg(iv, start + 1, end as int);
                    if item_h(iv, sel as int) <= max_height && start == sel {
                        if end as int == sel as int + 1 {
                            lemma_sum_left(iv, sel as int, sel as int + 1);
                            assert(heights_sum(iv, sel as int + 1, sel as int + 1) == 0);
                        }
                        assert(false);
                    }
                }
                let hs = self.items[start].height();
                height = height - hs;
                start = start + 1;
            }
        }
        let ghost start_b = start;
        let ghost end_b = end;

        while sel < start
            invariant
                iv == items_view(self.items@),
                len == self.items@.len(),
                0 < len,
                sel < len,
                heights_sum(iv, 0, len as int) <= usize::MAX,
                start <= end <= len,
                height == heights_sum(iv, start as int, end as int),
                height <= max_height,
                sel <= start || start == start_b,
                start <= start_b,
                item_h(iv, sel as int) <= max_height ==> sel < end,
                sel >= start_b ==> start == start_b && end == end_b,
                end == end_b || heights_sum(iv, sel as int, end + 1) > max_height,
            decreases start,
        {
            proof {
                lemma_sum_left(iv, start - 1, end as int);
                lemma_sum_bound(iv, 0, start - 1, end as int, len as int);
            }
            start = start - 1;
            let h = self.items[start].height();
            height = height + h;
            while height > max_height
                invariant
                    iv == items_view(self.items@),
                    len == self.items@.len(),
                    sel < len,
                    sel <= start,
                    start <= end <= len,
                    height == heights_sum(iv, start as int, end as int),
                    item_h(iv, sel as int) <= max_height ==> sel < end,
                    end == end_b || heights_sum(iv, sel as int, end + 1) > max_height,
                decreases end,
            {
                proof {
                    if start == end {
                        assert(heights_sum(iv, start as int, end as int) == 0);
                    }
                    if item_h(iv, sel as int) <= max_height && end as int == sel as int + 1 {
                        assert(start == sel);
                        lemma_sum_left(iv, sel as int, sel as int + 1);
                        assert(heights_sum(iv, sel as int + 1, sel as int + 1) == 0);
                        assert(false);
                    }
                    lemma_sum_nonneg(iv, start as int, end - 1);
                    lemma_sum_split(iv, sel as int, start as int, end as int);
                    lemma_sum_nonneg(iv, sel as int, start as int);
                }
                end = end - 1;
                let he = self.items[end].height();
                height = height - he;
            }
        }

        proof {
            let offc = clamp_to_len(offset as int, len as int);
            let selc = sel_index(selected, len as int);
            assert(offc == off as int);
            assert(selc == sel as int);
            assert(natural_end(iv, offc, max_height as int) == end_a);
        }
        (start, end)
    }
}

impl FuzzyListState {
    /// The windowing step of a render frame: computes the visible range of
    /// the widget's items for the current cursor and the viewport height,
    /// and stores the new offset, which is always the range's start.
    pub fn compute_window(&mut self, list: &FuzzyList, max_height: usize) -> (r: (usize, usize))
        requires
            list.items@.len() > 0,
            heights_sum(items_view(list.items@), 0, list.items@.len() as int) <= usize::MAX,
        ensures
            window_ok(items_view(list.items@), old(self).selected, old(self).offset, max_height, r),
            *final(self) == (FuzzyListState { offset: r.0, ..*old(self) }),
    {
        let r = list.get_items_bounds(self.selected, self.offset, max_height);
        self.offset = r.0;
        r
    }
}

/// Law: the windowing invariant. For a non-empty item sequence, any
/// selection whose clamped position names an item no taller than the
/// budget, any offset and any budget, the computed window `[start, end)`
/// contains the selected position and lies within the sequence.
pub proof fn lemma_window_contains_selection(
    iv: Seq<ItemView>,
    selected: Option<usize>,
    offset: usize,
    max_height: usize,
    r: (usize, usize),
)
    requires
        window_ok(iv, selected, offset, max_height, r),
        item_h(iv, sel_index(selected, iv.len() as int)) <= max_height,
    ensures
        r.0 <= sel_index(selected, iv.len() as int) < r.1,
        r.1 <= iv.len(),
{
}

/// Law: the minimal window. When every item is at least one line tall and
/// the budget equals the selected item's own height exactly, the computed
/// window holds exactly that one item.
pub proof fn lemma_minimal_window(
    iv: Seq<ItemView>,
    selected: Option<usize>,
    offset: usize,
    max_height: usize,
    r: (usize, usize),
)
    requires
        window_ok(iv, selected, offset, max_height, r),
        forall|i: int| 0 <= i < iv.len() ==> item_h(iv, i) >= 1,
        max_height == item_h(iv, sel_index(selected, iv.len() as int)),
    ensures
        r.1 == r.0 + 1,
        r.0 == sel_index(selected, iv.len() as int),
{
    let selc = sel_index(selected, iv.len() as int);
    lemma_sum_split(iv, r.0 as int, selc, r.1 as int);
    lemma_sum_left(iv, selc, r.1 as int);
    lemma_sum_at_least_count(iv, r.0 as int, selc);
    lemma_sum_at_least_count(iv, selc + 1, r.1 as int);
}

/// Law: the offset is monotone under downward selection moves. When no
/// item is taller than the budget, computing a window for a selection one
/// below the previous one, starting from the offset the previous window
/// produced, never moves the window start back up.
pub proof fn lemma_offset_monotonic(
    iv: Seq<ItemView>,
    sel: usize,
    offset: usize,
    max_height: usize,
    r1: (usize, usize),
    r2: (usize, usize),
)
    requires
        sel < usize::MAX,
        window_ok(iv, Some(sel), offset, max_height, r1),
        window_ok(iv, Some((sel + 1) as usize), r1.0, max_height, r2),
        forall|i: int| 0 <= i < iv.len() ==> item_h(iv, i) <= max_height,
    ensures
        r2.0 >= r1.0,
{
    let len = iv.len() as int;
    let selc1 = sel_index(Some(sel), len);
    let selc2 = sel_index(Some((sel + 1) as usize), len);
    assert(r1.0 <= selc1);
    assert(selc1 <= selc2);
    assert(clamp_to_len(r1.0 as int, len) == r1.0 as int);
}

} // verus!
