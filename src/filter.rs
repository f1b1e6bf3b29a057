//! Directory entries, and the visible subsequence that a query leaves of them.
use vstd::prelude::*;
use crate::matcher::{fuzzy_match, ints, match_spec};

verus! {

/// One child of a directory.
#[derive(Clone, Debug)]
pub struct Entry {
    pub name: String,
    pub is_dir: bool,
}

/// An entry that the current query keeps, with the positions of its name to
/// highlight and its index in the listing.
#[derive(Clone, Debug)]
pub struct VisibleEntry {
    pub name: String,
    pub highlights: Vec<usize>,
    pub source_index: usize,
}

/// An entry as a mathematical value.
pub struct EntryView {
    pub name: Seq<char>,
    pub is_dir: bool,
}

/// A visible entry as a mathematical value.
pub struct VisibleView {
    pub name: Seq<char>,
    pub highlights: Seq<int>,
    pub source_index: int,
}

impl View for Entry {
    type V = EntryView;

    open spec fn view(&self) -> EntryView {
        EntryView { name: self.name@, is_dir: self.is_dir }
    }
}

impl View for VisibleEntry {
    type V = VisibleView;

    open spec fn view(&self) -> VisibleView {
        VisibleView { name: self.name@, highlights: ints(self.highlights@), source_index: self.source_index as int }
    }
}

/// A listing as mathematical values.
pub open spec fn entries_view(v: Seq<Entry>) -> Seq<EntryView> {
    v.map_values(|e: Entry| e@)
}

/// A visible sequence as mathematical values.
pub open spec fn visible_view(v: Seq<VisibleEntry>) -> Seq<VisibleView> {
    v.map_values(|e: VisibleEntry| e@)
}

/// The visible sequence that `q` leaves of the first `n` entries of `l`.
pub open spec fn filter_upto(l: Seq<EntryView>, q: Seq<char>, n: int) -> Seq<VisibleView>
    decreases n,
{
    if n <= 0 {
        Seq::empty()
    } else {
        let prev = filter_upto(l, q, n - 1);
        match match_spec(q, l[n - 1].name) {
            Some(h) => prev.push(VisibleView { name: l[n - 1].name, highlights: h, source_index: n - 1 }),
            None => prev,
        }
    }
}

/// The visible sequence: each entry of `l` that `q` matches, in listing order.
pub open spec fn filter_spec(l: Seq<EntryView>, q: Seq<char>) -> Seq<VisibleView> {
    filter_upto(l, q, l.len() as int)
}

/// Keeps the entries of `listing` that `query` matches, in listing order, each
/// with its highlight positions and its index in `listing`.
pub fn filter(listing: &Vec<Entry>, query: &str) -> (r: Vec<VisibleEntry>)
    ensures
        visible_view(r@) == filter_spec(entries_view(listing@), query@),
{
    let ghost l = entries_view(listing@);
    let mut out: Vec<VisibleEntry> = Vec::new();
    let mut j: usize = 0;
    while j < listing.len()
        invariant
            j <= listing@.len(),
            l == entries_view(listing@),
            visible_view(out@) == filter_upto(l, query@, j as int),
        decreases listing@.len() - j,
    {
        let e = &listing[j];
        match fuzzy_match(query, e.name.as_str()) {
            Some(h) => {
                let v = VisibleEntry { name: e.name.clone(), highlights: h, source_index: j };
                out.push(v);
                assert(visible_view(out@) =~= filter_upto(l, query@, j as int).push(v@));
            },
            None => {},
        }
        j = j + 1;
    }
    out
}

/// `r` is an order-preserving subsequence of `l`: each element names the
/// entry it came from, and those indices strictly increase.
pub open spec fn is_subsequence_of(r: Seq<VisibleView>, l: Seq<EntryView>) -> bool {
    &&& forall|k: int| 0 <= k < r.len() ==> 0 <= #[trigger] r[k].source_index < l.len()
    &&& forall|k: int| 0 <= k < r.len() ==> #[trigger] r[k].name == l[r[k].source_index].name
    &&& forall|k: int, m: int| 0 <= k < m < r.len() ==> r[k].source_index < r[m].source_index
}

proof fn lemma_filter_upto_subsequence(l: Seq<EntryView>, q: Seq<char>, n: int)
    requires
        0 <= n <= l.len(),
    ensures
        is_subsequence_of(filter_upto(l, q, n), l),
        forall|k: int| 0 <= k < filter_upto(l, q, n).len() ==> #[trigger] filter_upto(l, q, n)[k].source_index < n,
    decreases n,
{
    if n > 0 {
        lemma_filter_upto_subsequence(l, q, n - 1);
    }
}

/// The visible sequence is an order-preserving subsequence of the listing.
pub proof fn lemma_filter_subsequence(l: Seq<EntryView>, q: Seq<char>)
    ensures
        is_subsequence_of(filter_spec(l, q), l),
{
    lemma_filter_upto_subsequence(l, q, l.len() as int);
}

proof fn lemma_filter_upto_empty_query(l: Seq<EntryView>, n: int)
    requires
        0 <= n <= l.len(),
    ensures
        filter_upto(l, Seq::empty(), n).len() == n,
        forall|k: int| 0 <= k < n ==> #[trigger] filter_upto(l, Seq::empty(), n)[k] == (VisibleView {
            name: l[k].name,
            highlights: Seq::empty(),
            source_index: k,
        }),
    decreases n,
{
    if n > 0 {
        lemma_filter_upto_empty_query(l, n - 1);
    }
}

/// The empty query keeps every entry, in order, with no highlight.
pub proof fn lemma_empty_query_keeps_all(l: Seq<EntryView>)
    ensures
        filter_spec(l, Seq::empty()).len() == l.len(),
        forall|k: int| 0 <= k < l.len() ==> #[trigger] filter_spec(l, Seq::empty())[k] == (VisibleView {
            name: l[k].name,
            highlights: Seq::empty(),
            source_index: k,
        }),
{
    lemma_filter_upto_empty_query(l, l.len() as int);
}

} // verus!
