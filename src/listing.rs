//! The order of a directory listing: by name, character by character.
use vstd::prelude::*;
use crate::filter::{entries_view, Entry, EntryView};

verus! {

broadcast use
    vstd::seq_lib::to_multiset_build,
    vstd::seq_lib::to_multiset_insert,
    vstd::seq_lib::to_multiset_len,
    vstd::multiset::lemma_multiset_empty_len,
    vstd::multiset::group_multiset_axioms,
;

/// `a[i..]` comes no later than `b[i..]` in lexicographic order of code points.
pub open spec fn name_le_from(a: Seq<char>, b: Seq<char>, i: int) -> bool
    decreases a.len() - i,
{
    if i >= a.len() || i < 0 {
        true
    } else if i >= b.len() {
        false
    } else if a[i] != b[i] {
        (a[i] as u32) < (b[i] as u32)
    } else {
        name_le_from(a, b, i + 1)
    }
}

/// `a` comes no later than `b` in lexicographic order of code points.
pub open spec fn name_le(a: Seq<char>, b: Seq<char>) -> bool {
    name_le_from(a, b, 0)
}

/// The entries are in order of name.
pub open spec fn sorted_by_name(s: Seq<EntryView>) -> bool {
    forall|j: int, k: int| 0 <= j < k < s.len() ==> name_le(s[j].name, s[k].name)
}

proof fn lemma_name_le_total(a: Seq<char>, b: Seq<char>, i: int)
    requires
        0 <= i,
    ensures
        name_le_from(a, b, i) || name_le_from(b, a, i),
    decreases a.len() - i,
{
    if i < a.len() && i < b.len() {
        if a[i] == b[i] {
            lemma_name_le_total(a, b, i + 1);
        } else {
            vstd::utf8::char_u32_cast(a[i], a[i] as u32);
            vstd::utf8::char_u32_cast(b[i], b[i] as u32);
        }
    }
}

proof fn lemma_name_le_transitive(a: Seq<char>, b: Seq<char>, c: Seq<char>, i: int)
    requires
        0 <= i,
        name_le_from(a, b, i),
        name_le_from(b, c, i),
    ensures
        name_le_from(a, c, i),
    decreases a.len() - i,
{
    if i < a.len() && i < b.len() && i < c.len() && a[i] == b[i] && b[i] == c[i] {
        lemma_name_le_transitive(a, b, c, i + 1);
    }
}

/// Whether name `a` comes no later than name `b`, comparing code points.
pub fn name_le_exec(a: &str, b: &str) -> (r: bool)
    ensures
        r == name_le(a@, b@),
{
    let an = a.unicode_len();
    let bn = b.unicode_len();
    let mut i: usize = 0;
    while i < an
        invariant
            an == a@.len(),
            bn == b@.len(),
            i <= an,
            name_le(a@, b@) == name_le_from(a@, b@, i as int),
        decreases an - i,
    {
        if i >= bn {
            return false;
        }
        let ca = a.get_char(i);
        let cb = b.get_char(i);
        if ca != cb {
            return (ca as u32) < (cb as u32);
        }
        i = i + 1;
    }
    true
}

/// Puts `entries` in order of name, keeping every entry.
pub fn sort_by_name(entries: Vec<Entry>) -> (r: Vec<Entry>)
    ensures
        sorted_by_name(entries_view(r@)),
        entries_view(r@).to_multiset() == entries_view(entries@).to_multiset(),
{
    let ghost all = entries_view(entries@).to_multiset();
    let mut rest = entries;
    let mut out: Vec<Entry> = Vec::new();
    assert(entries_view(out@) =~= Seq::<EntryView>::empty());
    assert(entries_view(out@).to_multiset().len() == 0);
    assert(entries_view(out@).to_multiset() =~= vstd::multiset::Multiset::empty());
    assert(entries_view(rest@).to_multiset().add(entries_view(out@).to_multiset()) =~= all);
    while rest.len() > 0
        invariant
            sorted_by_name(entries_view(out@)),
            entries_view(rest@).to_multiset().add(entries_view(out@).to_multiset()) == all,
        decreases rest@.len(),
    {
        let ghost before_rest = rest@;
        let x = rest.pop().unwrap();
        assert(entries_view(before_rest) =~= entries_view(rest@).push(x@));
        let ghost o = entries_view(out@);
        let mut p: usize = 0;
        while p < out.len() && name_le_exec(out[p].name.as_str(), x.name.as_str())
            invariant
                p <= out@.len(),
                o == entries_view(out@),
                forall|k: int| 0 <= k < p ==> name_le(#[trigger] o[k].name, x.name@),
            decreases out@.len() - p,
        {
            p = p + 1;
        }
        if p < out.len() {
            proof {
                lemma_name_le_total(o[p as int].name, x.name@, 0);
            }
        }
        let ghost xv = x@;
        out.insert(p, x);
        proof {
            let n = entries_view(out@);
            assert(n =~= o.insert(p as int, xv));
            assert forall|j: int, k: int| 0 <= j < k < n.len() implies name_le(n[j].name, n[k].name) by {
                if k == p {
                    assert(name_le(o[j].name, xv.name));
                } else if j == p && k == p + 1 {
                } else if j == p {
                    assert(name_le(o[p as int].name, o[k - 1].name));
                    lemma_name_le_transitive(xv.name, o[p as int].name, o[k - 1].name, 0);
                } else if j < p && k > p {
                    assert(name_le(o[j].name, o[k - 1].name));
                } else if j > p {
                    assert(name_le(o[j - 1].name, o[k - 1].name));
                }
            }
        }
    }
    assert(entries_view(rest@) =~= Seq::<EntryView>::empty());
    assert(entries_view(rest@).to_multiset().add(entries_view(out@).to_multiset())
        =~= entries_view(out@).to_multiset());
    out
}

} // verus!
