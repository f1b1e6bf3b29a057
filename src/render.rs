//! What rendering needs from the engine: a name cut into plain and highlighted
//! segments, and the column of the text cursor after the query.
use vstd::prelude::*;
use unicode_width::UnicodeWidthStr;
use crate::matcher::ints;

verus! {

/// A run of a name's characters, highlighted or not.
#[derive(Clone, Debug)]
pub struct Segment {
    pub text: String,
    pub highlighted: bool,
}

impl View for Segment {
    type V = (Seq<char>, bool);

    open spec fn view(&self) -> (Seq<char>, bool) {
        (self.text@, self.highlighted)
    }
}

/// Segments as mathematical values.
pub open spec fn segments_view(v: Seq<Segment>) -> Seq<(Seq<char>, bool)> {
    v.map_values(|g: Segment| g@)
}

/// Positions that are strictly increasing and inside a name of length `n`.
pub open spec fn highlights_valid(h: Seq<int>, n: int) -> bool {
    &&& forall|j: int| 0 <= j < h.len() ==> 0 <= #[trigger] h[j] < n
    &&& forall|j: int, l: int| 0 <= j < l < h.len() ==> h[j] < h[l]
}

/// The segments of `name` from position `last` on, given that highlights
/// `h[j..]` remain: a plain run up to each highlighted character, the
/// character itself, and a plain run after the last one; no run is empty.
pub open spec fn segments_from(name: Seq<char>, h: Seq<int>, j: int, last: int) -> Seq<(Seq<char>, bool)>
    decreases h.len() - j,
{
    if j >= h.len() || j < 0 {
        if last < name.len() {
            seq![(name.subrange(last, name.len() as int), false)]
        } else {
            Seq::empty()
        }
    } else {
        let i = h[j];
        let before = if i > last { seq![(name.subrange(last, i), false)] } else { Seq::empty() };
        before + seq![(name.subrange(i, i + 1), true)] + segments_from(name, h, j + 1, i + 1)
    }
}

/// Cuts `name` into segments: each highlighted position alone and highlighted,
/// the characters between them in plain runs, in order.
pub fn highlight_segments(name: &str, highlights: &Vec<usize>) -> (r: Vec<Segment>)
    requires
        highlights_valid(ints(highlights@), name@.len() as int),
    ensures
        segments_view(r@) == segments_from(name@, ints(highlights@), 0, 0),
{
    let ghost h = ints(highlights@);
    let n = name.unicode_len();
    let mut out: Vec<Segment> = Vec::new();
    let mut last: usize = 0;
    let mut j: usize = 0;
    while j < highlights.len()
        invariant
            n == name@.len(),
            h == ints(highlights@),
            highlights_valid(h, n as int),
            j <= highlights@.len(),
            last <= n,
            j > 0 ==> last == h[j - 1] + 1,
            j == 0 ==> last == 0,
            segments_from(name@, h, 0, 0) == segments_view(out@) + segments_from(name@, h, j as int, last as int),
        decreases highlights@.len() - j,
    {
        let i = highlights[j];
        assert(h[j as int] == i as int);
        if j > 0 {
            assert(h[j - 1] < h[j as int]);
        }
        let ghost before = out@;
        if i > last {
            let t = name.substring_char(last, i).to_owned();
            out.push(Segment { text: t, highlighted: false });
        }
        let c = name.substring_char(i, i + 1).to_owned();
        out.push(Segment { text: c, highlighted: true });
        proof {
            let rest = segments_from(name@, h, j + 1, i + 1);
            let b = if i > last { seq![(name@.subrange(last as int, i as int), false)] } else { Seq::empty() };
            assert(segments_view(out@) =~= segments_view(before) + b + seq![(name@.subrange(i as int, i + 1), true)]);
            assert(segments_view(before) + (b + seq![(name@.subrange(i as int, i + 1), true)] + rest)
                =~= segments_view(out@) + rest);
        }
        last = i + 1;
        j = j + 1;
    }
    if last < n {
        let ghost before = out@;
        let t = name.substring_char(last, n).to_owned();
        out.push(Segment { text: t, highlighted: false });
        assert(segments_view(out@) =~= segments_view(before) + segments_from(name@, h, j as int, last as int));
    } else {
        assert(segments_view(out@) =~= segments_view(out@) + Seq::<(Seq<char>, bool)>::empty());
    }
    out
}

/// The display width, in terminal columns, that `unicode-width` gives a text.
pub uninterp spec fn display_width(s: Seq<char>) -> usize;

/// Relies on `UnicodeWidthStr::width` of `unicode-width`: the sum of the
/// characters' column widths, which depends on the characters alone; the empty
/// text is zero columns wide.
#[verifier::external_body]
fn text_width(s: &str) -> (r: usize)
    ensures
        r == display_width(s@),
        s@.len() == 0 ==> r == 0,
{
    s.width()
}

/// The column of the text cursor in a one-line input box whose border starts
/// at column `x` and which shows `text`: just past the text, inside the
/// border, or the last column when that lies beyond it.
pub fn cursor_column(x: u16, text: &str) -> (r: u16)
    ensures
        r as int == if x + display_width(text@) + 1 <= u16::MAX { x + display_width(text@) + 1 } else { u16::MAX as int },
{
    let w = text_width(text);
    if x < u16::MAX && w <= (u16::MAX - 1 - x) as usize {
        x + (w as u16) + 1
    } else {
        u16::MAX
    }
}

} // verus!
