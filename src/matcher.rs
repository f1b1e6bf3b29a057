//! Greedy, case-insensitive subsequence matching of a query against a name.
use vstd::prelude::*;

verus! {

/// The characters that `char::to_lowercase` yields for `c`.
pub uninterp spec fn lower_of(c: char) -> Seq<char>;

/// Two characters are equal up to case when they lower-case to the same text.
pub open spec fn same_fold(a: char, b: char) -> bool {
    lower_of(a) == lower_of(b)
}

/// The lower-case form of each character of `s`.
pub open spec fn folds(s: Seq<char>) -> Seq<Seq<char>> {
    s.map_values(|c: char| lower_of(c))
}

/// The texts that a sequence of strings holds.
pub open spec fn texts(v: Seq<String>) -> Seq<Seq<char>> {
    v.map_values(|s: String| s@)
}

/// Greedy match of `q[k..]` against `c[i..]`, position by position: each
/// element of the query takes the earliest equal element at or after the
/// current position.
pub open spec fn greedy(q: Seq<Seq<char>>, c: Seq<Seq<char>>, k: int, i: int) -> Option<Seq<int>>
    decreases q.len() - k, c.len() - i,
{
    if k >= q.len() {
        Some(Seq::empty())
    } else if i >= c.len() || i < 0 {
        None
    } else if q[k] == c[i] {
        match greedy(q, c, k + 1, i + 1) {
            Some(h) => Some(seq![i] + h),
            None => None,
        }
    } else {
        greedy(q, c, k, i + 1)
    }
}

/// The highlight positions that matching `q` against `c` reports, or `None`.
pub open spec fn match_spec(q: Seq<char>, c: Seq<char>) -> Option<Seq<int>> {
    greedy(folds(q), folds(c), 0, 0)
}

/// Positions held as machine integers, seen as mathematical integers.
pub open spec fn ints(h: Seq<usize>) -> Seq<int> {
    h.map_values(|x: usize| x as int)
}

/// `o` with `h` put in front of the positions it holds.
pub open spec fn prepend(h: Seq<int>, o: Option<Seq<int>>) -> Option<Seq<int>> {
    match o {
        Some(t) => Some(h + t),
        None => None,
    }
}

/// `h` places the elements of `q` from `k` on, in order, on equal elements of
/// `c` at or after position `i`.
pub open spec fn places(q: Seq<Seq<char>>, c: Seq<Seq<char>>, k: int, i: int, h: Seq<int>) -> bool {
    &&& h.len() == q.len() - k
    &&& forall|j: int| 0 <= j < h.len() ==> i <= #[trigger] h[j] < c.len()
    &&& forall|j: int, l: int| 0 <= j < l < h.len() ==> h[j] < h[l]
    &&& forall|j: int| 0 <= j < h.len() ==> #[trigger] c[h[j]] == q[k + j]
}

proof fn lemma_greedy_places(q: Seq<Seq<char>>, c: Seq<Seq<char>>, k: int, i: int)
    requires
        0 <= k <= q.len(),
        0 <= i,
        greedy(q, c, k, i) is Some,
    ensures
        places(q, c, k, i, greedy(q, c, k, i)->0),
    decreases q.len() - k, c.len() - i,
{
    if k < q.len() && i < c.len() {
        if q[k] == c[i] {
            lemma_greedy_places(q, c, k + 1, i + 1);
            let t = greedy(q, c, k + 1, i + 1)->0;
            let h = seq![i] + t;
            assert forall|j: int| 0 <= j < h.len() implies #[trigger] c[h[j]] == q[k + j] by {
                if j > 0 {
                    assert(h[j] == t[j - 1]);
                    assert(k + j == (k + 1) + (j - 1));
                }
            }
            assert forall|j: int, l: int| 0 <= j < l < h.len() implies h[j] < h[l] by {
                assert(h[l] == t[l - 1]);
                if j > 0 {
                    assert(h[j] == t[j - 1]);
                }
            }
            assert forall|j: int| 0 <= j < h.len() implies i <= #[trigger] h[j] < c.len() by {
                if j > 0 {
                    assert(h[j] == t[j - 1]);
                }
            }
        } else {
            lemma_greedy_places(q, c, k, i + 1);
        }
    }
}

/// A successful match reports one position per query character, strictly
/// increasing and inside the candidate, and the candidate's characters at those
/// positions spell the query up to case.
pub proof fn lemma_match_sound(q: Seq<char>, c: Seq<char>)
    requires
        match_spec(q, c) is Some,
    ensures
        match_spec(q, c)->0.len() == q.len(),
        forall|j: int| 0 <= j < q.len() ==> 0 <= #[trigger] match_spec(q, c)->0[j] < c.len(),
        forall|j: int, l: int| 0 <= j < l < q.len() ==> match_spec(q, c)->0[j] < match_spec(q, c)->0[l],
        forall|j: int| 0 <= j < q.len() ==> same_fold(#[trigger] c[match_spec(q, c)->0[j]], q[j]),
{
    lemma_greedy_places(folds(q), folds(c), 0, 0);
    let h = match_spec(q, c)->0;
    assert forall|j: int| 0 <= j < q.len() implies same_fold(#[trigger] c[h[j]], q[j]) by {
        assert(folds(c)[h[j]] == folds(q)[0 + j]);
    }
}

proof fn lemma_places_greedy(q: Seq<Seq<char>>, c: Seq<Seq<char>>, k: int, i: int, h: Seq<int>)
    requires
        0 <= k <= q.len(),
        0 <= i,
        places(q, c, k, i, h),
    ensures
        greedy(q, c, k, i) is Some,
    decreases q.len() - k, c.len() - i,
{
    if k < q.len() {
        assert(i <= h[0] < c.len());
        if q[k] == c[i] {
            let t = h.drop_first();
            assert forall|j: int| 0 <= j < t.len() implies i + 1 <= #[trigger] t[j] < c.len() by {
                assert(t[j] == h[j + 1]);
                assert(h[0] < h[j + 1]);
            }
            assert forall|j: int| 0 <= j < t.len() implies #[trigger] c[t[j]] == q[k + 1 + j] by {
                assert(t[j] == h[j + 1]);
                assert(c[h[j + 1]] == q[k + (j + 1)]);
            }
            assert forall|j: int, l: int| 0 <= j < l < t.len() implies t[j] < t[l] by {
                assert(h[j + 1] < h[l + 1]);
            }
            lemma_places_greedy(q, c, k + 1, i + 1, t);
        } else {
            assert(c[h[0]] == q[k + 0]);
            assert forall|j: int| 0 <= j < h.len() implies i + 1 <= #[trigger] h[j] < c.len() by {
                if j > 0 {
                    assert(h[0] < h[j]);
                }
            }
            lemma_places_greedy(q, c, k, i + 1, h);
        }
    }
}

/// A query whose characters stand, in order and up to case, at strictly
/// increasing positions `h` of the candidate is matched.
pub proof fn lemma_match_complete(q: Seq<char>, c: Seq<char>, h: Seq<int>)
    requires
        h.len() == q.len(),
        forall|j: int| 0 <= j < h.len() ==> 0 <= #[trigger] h[j] < c.len(),
        forall|j: int, l: int| 0 <= j < l < h.len() ==> h[j] < h[l],
        forall|j: int| 0 <= j < h.len() ==> same_fold(#[trigger] c[h[j]], q[j]),
    ensures
        match_spec(q, c) is Some,
{
    assert forall|j: int| 0 <= j < h.len() implies #[trigger] folds(c)[h[j]] == folds(q)[0 + j] by {
        assert(same_fold(c[h[j]], q[j]));
    }
    lemma_places_greedy(folds(q), folds(c), 0, 0, h);
}

/// The empty query matches every candidate, with no highlight.
pub proof fn lemma_empty_query_matches(c: Seq<char>)
    ensures
        match_spec(Seq::empty(), c) == Some(Seq::<int>::empty()),
{
}

/// Relies on `char::to_lowercase`: the lower-case form depends on the character alone.
#[verifier::external_body]
fn lower_char(c: char) -> (r: String)
    ensures
        r@ == lower_of(c),
{
    c.to_lowercase().collect()
}

/// The lower-case form of each character of `s`, one string per character.
pub fn fold_chars(s: &str) -> (r: Vec<String>)
    ensures
        texts(r@) == folds(s@),
{
    let n = s.unicode_len();
    let mut out: Vec<String> = Vec::new();
    let mut i: usize = 0;
    while i < n
        invariant
            n == s@.len(),
            i <= n,
            texts(out@) == folds(s@).subrange(0, i as int),
        decreases n - i,
    {
        let ch = s.get_char(i);
        let f = lower_char(ch);
        let ghost before = out@;
        out.push(f);
        assert(texts(out@) =~= texts(before).push(lower_of(ch)));
        assert(texts(out@) =~= folds(s@).subrange(0, i + 1));
        i = i + 1;
    }
    assert(folds(s@).subrange(0, n as int) =~= folds(s@));
    out
}

/// Greedy match of folded `query` against folded `candidate`: `Some` of the
/// position that each query element takes, the earliest equal one after the
/// previous, or `None` when the query is not a subsequence.
pub fn match_folded(query: &Vec<String>, candidate: &Vec<String>) -> (r: Option<Vec<usize>>)
    ensures
        match r {
            Some(h) => greedy(texts(query@), texts(candidate@), 0, 0) == Some(ints(h@)),
            None => greedy(texts(query@), texts(candidate@), 0, 0) is None,
        },
{
    let ghost q = texts(query@);
    let ghost c = texts(candidate@);
    let qn = query.len();
    let cn = candidate.len();
    let mut h: Vec<usize> = Vec::new();
    let mut k: usize = 0;
    let mut i: usize = 0;
    while i < cn && k < qn
        invariant
            qn == q.len(),
            cn == c.len(),
            q == texts(query@),
            c == texts(candidate@),
            k <= qn,
            i <= cn,
            h@.len() == k,
            greedy(q, c, 0, 0) == prepend(ints(h@), greedy(q, c, k as int, i as int)),
        decreases cn - i,
    {
        if query[k] == candidate[i] {
            proof {
                let rest = greedy(q, c, k + 1, i + 1);
                assert(ints(h@.push(i)) =~= ints(h@) + seq![i as int]);
                match rest {
                    Some(t) => {
                        assert(ints(h@) + (seq![i as int] + t) =~= ints(h@) + seq![i as int] + t);
                    },
                    None => {},
                }
            }
            h.push(i);
            k = k + 1;
        }
        i = i + 1;
    }
    if k == qn {
        assert(ints(h@) + Seq::<int>::empty() =~= ints(h@));
        Some(h)
    } else {
        None
    }
}

/// Matches `query` against `candidate` up to case: `Some` of the position of
/// each query character, taken greedily left to right, or `None` when the query
/// is not a subsequence of the candidate.
pub fn fuzzy_match(query: &str, candidate: &str) -> (r: Option<Vec<usize>>)
    ensures
        match r {
            Some(h) => match_spec(query@, candidate@) == Some(ints(h@)),
            None => match_spec(query@, candidate@) is None,
        },
{
    let q = fold_chars(query);
    let c = fold_chars(candidate);
    match_folded(&q, &c)
}

} // verus!
