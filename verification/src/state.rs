//! The state container: the full item collection, the active filter, the
//! derived filtered view, and the selection/scroll cursor.

use crate::item::{item_matched, rewrite_item, FuzzyListItem, ItemView};
use vstd::prelude::*;

verus! {

/// The mathematical model of the container's state.
pub ghost struct StateView {
    pub offset: int,
    pub selected: Option<int>,
    pub filter: Option<Seq<char>>,
    pub items: Seq<ItemView>,
    pub filtered: Seq<ItemView>,
}

/// The model of a sequence of items.
pub open spec fn items_view(items: Seq<FuzzyListItem>) -> Seq<ItemView> {
    items.map_values(|it: FuzzyListItem| it@)
}

/// The filtered view a query derives from a collection: the items that
/// fuzzy-match the query, in collection order, each rewritten for
/// highlighting.
pub open spec fn filtered_items(items: Seq<ItemView>, q: Seq<char>) -> Seq<ItemView> {
    items.filter(|iv: ItemView| item_matched(iv, q)).map_values(
        |iv: ItemView| rewrite_item(iv, q),
    )
}

/// A query as `set_filter` normalizes it: an empty string stands for no
/// filter.
pub open spec fn normalize_filter(q: Option<Seq<char>>) -> Option<Seq<char>> {
    match q {
        Some(s) => if s.len() == 0 {
            None
        } else {
            Some(s)
        },
        None => None,
    }
}

/// What `set_filter` does to the state, after normalizing the query:
/// clearing an active filter empties the filtered view and keeps the
/// cursor; a new query re-scans the full collection and resets the cursor;
/// repeating the active query (or no filter at all) changes nothing.
pub open spec fn spec_set_filter(sv: StateView, q: Option<Seq<char>>) -> StateView {
    let qn = normalize_filter(q);
    match qn {
        None => if sv.filter is Some {
            StateView { filtered: Seq::empty(), filter: None, ..sv }
        } else {
            sv
        },
        Some(s) => if sv.filter != qn {
            StateView {
                filtered: filtered_items(sv.items, s),
                filter: qn,
                selected: None,
                offset: 0,
                ..sv
            }
        } else {
            sv
        },
    }
}

/// The items a state presents: the filtered view when it is non-empty,
/// else the full collection.
pub open spec fn visible_of(sv: StateView) -> Seq<ItemView> {
    if sv.filtered.len() == 0 {
        sv.items
    } else {
        sv.filtered
    }
}

/// The state's internal invariant: the filter is normalized, and without an
/// active filter there is no filtered view.
pub open spec fn state_wf(sv: StateView) -> bool {
    &&& (sv.filter is Some ==> sv.filter->0.len() >= 1)
    &&& (sv.filter is None ==> sv.filtered.len() == 0)
}

/// A filterable, selectable collection of list items.
pub struct FuzzyListState {
    pub offset: usize,
    pub selected: Option<usize>,
    pub filter: Option<String>,
    pub items: Vec<FuzzyListItem>,
    pub filtered: Vec<FuzzyListItem>,
}

impl View for FuzzyListState {
    type V = StateView;

    open spec fn view(&self) -> StateView {
        StateView {
            offset: self.offset as int,
            selected: match self.selected {
                Some(v) => Some(v as int),
                None => None,
            },
            filter: match self.filter {
                Some(ref f) => Some(f@),
                None => None,
            },
            items: items_view(self.items@),
            filtered: items_view(self.filtered@),
        }
    }
}

impl Default for FuzzyListState {
    /// An empty container: no items, no filter, no selection.
    fn default() -> (r: FuzzyListState)
        ensures
            r@ == (StateView {
                offset: 0,
                selected: None::<int>,
                filter: None::<Seq<char>>,
                items: Seq::<ItemView>::empty(),
                filtered: Seq::<ItemView>::empty(),
            }),
            state_wf(r@),
    {
        let r = FuzzyListState {
            offset: 0,
            selected: None,
            filter: None,
            items: Vec::new(),
            filtered: Vec::new(),
        };
        proof {
            assert(items_view(r.items@) =~= Seq::<ItemView>::empty());
        }
        r
    }
}

impl FuzzyListState {
    /// A container holding the given items, with no filter and no
    /// selection.
    pub fn with_items(items: Vec<FuzzyListItem>) -> (r: FuzzyListState)
        ensures
            r@ == (StateView {
                offset: 0,
                selected: None::<int>,
                filter: None::<Seq<char>>,
                items: items_view(items@),
                filtered: Seq::<ItemView>::empty(),
            }),
            state_wf(r@),
    {
        let r = FuzzyListState { offset: 0, selected: None, filter: None, items, filtered: Vec::new() };
        proof {
            assert(items_view(r.filtered@) =~= Seq::<ItemView>::empty());
        }
        r
    }

    /// The currently selected index, if any.
    pub fn selected(&self) -> (r: Option<usize>)
        ensures
            r == self.selected_spec(),
    {
        self.selected
    }

    /// The selected index, as the model sees it.
    pub open spec fn selected_spec(&self) -> Option<usize> {
        self.selected
    }

    /// Sets the selection directly; clearing it resets the scroll offset.
    pub fn select(&mut self, index: Option<usize>)
        ensures
            final(self)@ == (StateView {
                selected: match index {
                    Some(v) => Some(v as int),
                    None => None,
                },
                offset: if index is None {
                    0
                } else {
                    old(self)@.offset
                },
                ..old(self)@
            }),
    {
        self.selected = index;
        if index.is_none() {
            self.offset = 0;
        }
    }

    /// Moves the selection one position down: from no selection to the
    /// first index, else one past the current index. The index is not
    /// clamped to the item count here; the windowing computation treats an
    /// index past the end as the last item.
    pub fn increment_selected(&mut self)
        requires
            old(self).selected_spec() is Some ==> old(self).selected_spec()->0 < usize::MAX,
        ensures
            final(self)@ == (StateView {
                selected: Some(
                    match old(self)@.selected {
                        Some(v) => v + 1,
                        None => 0,
                    },
                ),
                ..old(self)@
            }),
    {
        let next = match self.selected {
            Some(v) => Some(v + 1),
            None => Some(0),
        };
        self.select(next);
    }

    /// Moves the selection one position up, saturating at the first index;
    /// with no selection it stays none (and the offset resets).
    pub fn decrement_selected(&mut self)
        ensures
            final(self)@ == (StateView {
                selected: match old(self)@.selected {
                    Some(v) => Some(if v > 0 {
                        v - 1
                    } else {
                        0
                    }),
                    None => None,
                },
                offset: if old(self)@.selected is None {
                    0
                } else {
                    old(self)@.offset
                },
                ..old(self)@
            }),
    {
        let prev = match self.selected {
            Some(v) => Some(if v > 0 {
                v - 1
            } else {
                v
            }),
            None => None,
        };
        self.select(prev);
    }

    /// The current normalized filter, if any.
    pub fn get_filter(&self) -> (r: Option<String>)
        ensures
            match (r, self@.filter) {
                (Some(s), Some(f)) => s@ == f,
                (None, None) => true,
                _ => false,
            },
    {
        match &self.filter {
            Some(f) => Some(f.clone()),
            None => None,
        }
    }

    /// Applies or clears the fuzzy filter. An empty query stands for no
    /// filter. A new query re-scans the full collection, keeps the matching
    /// items rewritten for highlighting, and clears the selection; clearing
    /// an active filter empties the filtered view and keeps the cursor;
    /// repeating the active query changes nothing.
    pub fn set_filter(&mut self, filter: Option<&str>)
        requires
            state_wf(old(self)@),
        ensures
            final(self)@ == spec_set_filter(old(self)@, match filter {
                Some(s) => Some(s@),
                None => None,
            }),
            state_wf(final(self)@),
    {
        let filter = match filter {
            Some(f) => if f.unicode_len() == 0 {
                None
            } else {
                Some(f)
            },
            None => None,
        };
        match filter {
            None => {
                if self.filter.is_some() {
                    self.filtered = Vec::new();
                    self.filter = None;
                    proof {
                        assert(items_view(self.filtered@) =~= Seq::<ItemView>::empty());
                    }
                }
            },
            Some(q) => {
                let qs = q.to_owned();
                let same = match &self.filter {
                    Some(old_q) => *old_q == qs,
                    None => false,
                };
                if !same {
                    let mut kept: Vec<FuzzyListItem> = Vec::new();
                    let n = self.items.len();
                    let ghost items = items_view(self.items@);
                    for i in 0..n
                        invariant
                            n == self.items.len(),
                            items == items_view(self.items@),
                            q@.len() >= 1,
                            items_view(kept@) == filtered_items(items.take(i as int), q@),
                    {
                        let ghost prefix = items.take(i as int);
                        let mut candidate = self.items[i].clone();
                        let matched = candidate.matches(q);
                        let ghost kept_before = kept@;
                        if matched {
                            kept.push(candidate);
                        }
                        proof {
                            lemma_filtered_items_push(prefix, items[i as int], q@);
                            assert(items.take(i + 1) =~= prefix.push(items[i as int]));
                            if matched {
                                assert(items_view(kept@) =~= items_view(kept_before).push(
                                    rewrite_item(items[i as int], q@),
                                ));
                            }
                        }
                    }
                    proof {
                        assert(items.take(n as int) =~= items);
                    }
                    self.filtered = kept;
                    self.selected = None;
                    self.offset = 0;
                    self.filter = Some(qs);
                }
            },
        }
    }

    /// The active list: the filtered view when it is non-empty, else the
    /// full collection.
    pub fn get_items(&self) -> (r: &Vec<FuzzyListItem>)
        ensures
            items_view(r@) == visible_of(self@),
    {
        if self.filtered.is_empty() {
            proof {
                assert(items_view(self.filtered@) =~= Seq::<ItemView>::empty());
            }
            &self.items
        } else {
            &self.filtered
        }
    }
}

/// Extending the scanned collection by one item extends its filtered view
/// by that item exactly when the item matches.
proof fn lemma_filtered_items_push(items: Seq<ItemView>, iv: ItemView, q: Seq<char>)
    ensures
        filtered_items(items.push(iv), q) == if item_matched(iv, q) {
            filtered_items(items, q).push(rewrite_item(iv, q))
        } else {
            filtered_items(items, q)
        },
{
    reveal(Seq::filter);
    let p = |x: ItemView| item_matched(x, q);
    assert(items.push(iv).drop_last() =~= items);
    assert(items.push(iv).filter(p) == if p(iv) {
        items.filter(p).push(iv)
    } else {
        items.filter(p)
    });
    if p(iv) {
        assert(items.filter(p).push(iv).map_values(|x: ItemView| rewrite_item(x, q)) =~= items.filter(
            p,
        ).map_values(|x: ItemView| rewrite_item(x, q)).push(rewrite_item(iv, q)));
    }
}

/// Law: filtering is idempotent. Applying the same query twice leaves the
/// state exactly as after the first application; in particular the second
/// application does not reset the selection.
pub proof fn lemma_set_filter_idempotent(sv: StateView, q: Option<Seq<char>>)
    requires
        state_wf(sv),
    ensures
        spec_set_filter(spec_set_filter(sv, q), q) == spec_set_filter(sv, q),
        spec_set_filter(spec_set_filter(sv, q), q).selected == spec_set_filter(sv, q).selected,
{
}

/// Law: applying a filter preserves the state's invariant.
pub proof fn lemma_set_filter_wf(sv: StateView, q: Option<Seq<char>>)
    requires
        state_wf(sv),
    ensures
        state_wf(spec_set_filter(sv, q)),
{
}

/// Law: a filter round-trip is lossless. Applying any query and then
/// clearing the filter presents the full original collection again, in its
/// original order.
pub proof fn lemma_set_filter_round_trip(sv: StateView, q: Seq<char>)
    requires
        state_wf(sv),
    ensures
        visible_of(spec_set_filter(spec_set_filter(sv, Some(q)), None)) == sv.items,
{
}

/// Law: an empty query is the same as no query.
pub proof fn lemma_set_filter_empty_is_none(sv: StateView)
    requires
        state_wf(sv),
    ensures
        spec_set_filter(sv, Some(Seq::empty())) == spec_set_filter(sv, None),
{
}

} // verus!
