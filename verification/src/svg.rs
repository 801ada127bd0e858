use vstd::prelude::*;

use crate::bytes::{push_all, push_range, range_eq, starts_with_at};

verus! {

/// The byte `"` that closes an attribute value.
pub const QUOTE: u8 = 34;

/// The byte `\n`; a quoted attribute value never runs across it.
pub const NEWLINE: u8 = 10;

/// The attribute patterns the recolorer scans for. `FillHex`, `FillAny`
/// and `StrokeAny` stand for a prefix followed by the shortest run of
/// bytes up to a closing quote; the other three are literal.
#[derive(Clone, Copy)]
pub enum Pat {
    FillHex,
    FillAny,
    StrokeAny,
    Width48,
    Height48,
    EvenOdd,
}

/// The opening `fill="#` of a hex-color fill attribute.
pub open spec fn fill_hex_prefix() -> Seq<u8> {
    seq![102u8, 105u8, 108u8, 108u8, 61u8, 34u8, 35u8]
}

/// The opening `fill="` of a fill attribute with any value.
pub open spec fn fill_any_prefix() -> Seq<u8> {
    seq![102u8, 105u8, 108u8, 108u8, 61u8, 34u8]
}

/// The opening `stroke="` of a stroke attribute.
pub open spec fn stroke_prefix() -> Seq<u8> {
    seq![115u8, 116u8, 114u8, 111u8, 107u8, 101u8, 61u8, 34u8]
}

/// The literal `width="48"` attribute.
pub open spec fn width_48() -> Seq<u8> {
    seq![119u8, 105u8, 100u8, 116u8, 104u8, 61u8, 34u8, 52u8, 56u8, 34u8]
}

/// The literal `height="48"` attribute.
pub open spec fn height_48() -> Seq<u8> {
    seq![104u8, 101u8, 105u8, 103u8, 104u8, 116u8, 61u8, 34u8, 52u8, 56u8, 34u8]
}

/// The literal `fill-rule="evenodd"` marker attribute.
pub open spec fn evenodd_marker() -> Seq<u8> {
    seq![102u8, 105u8, 108u8, 108u8, 45u8, 114u8, 117u8, 108u8, 101u8, 61u8, 34u8, 101u8, 118u8, 101u8, 110u8, 111u8, 100u8, 100u8, 34u8]
}

/// The literal `fill="none"` attribute.
pub open spec fn fill_none() -> Seq<u8> {
    seq![102u8, 105u8, 108u8, 108u8, 61u8, 34u8, 110u8, 111u8, 110u8, 101u8, 34u8]
}

/// The literal `fill="currentColor"` attribute.
pub open spec fn fill_current() -> Seq<u8> {
    seq![102u8, 105u8, 108u8, 108u8, 61u8, 34u8, 99u8, 117u8, 114u8, 114u8, 101u8, 110u8, 116u8, 67u8, 111u8, 108u8, 111u8, 114u8, 34u8]
}

/// The literal `stroke="currentColor"` attribute.
pub open spec fn stroke_current() -> Seq<u8> {
    seq![115u8, 116u8, 114u8, 111u8, 107u8, 101u8, 61u8, 34u8, 99u8, 117u8, 114u8, 114u8, 101u8, 110u8, 116u8, 67u8, 111u8, 108u8, 111u8, 114u8, 34u8]
}

/// The literal `width="100%"` attribute.
pub open spec fn width_full() -> Seq<u8> {
    seq![119u8, 105u8, 100u8, 116u8, 104u8, 61u8, 34u8, 49u8, 48u8, 48u8, 37u8, 34u8]
}

/// The literal `height="100%"` attribute.
pub open spec fn height_full() -> Seq<u8> {
    seq![104u8, 101u8, 105u8, 103u8, 104u8, 116u8, 61u8, 34u8, 49u8, 48u8, 48u8, 37u8, 34u8]
}

/// The opening bytes that a match of `p` must begin with.
pub open spec fn prefix_of(p: Pat) -> Seq<u8> {
    match p {
        Pat::FillHex => fill_hex_prefix(),
        Pat::FillAny => fill_any_prefix(),
        Pat::StrokeAny => stroke_prefix(),
        Pat::Width48 => width_48(),
        Pat::Height48 => height_48(),
        Pat::EvenOdd => evenodd_marker(),
    }
}

/// Whether a match of `p` goes on past its prefix up to the next quote.
pub open spec fn is_lazy(p: Pat) -> bool {
    match p {
        Pat::FillHex => true,
        Pat::FillAny => true,
        Pat::StrokeAny => true,
        Pat::Width48 => false,
        Pat::Height48 => false,
        Pat::EvenOdd => false,
    }
}

/// Where the shortest quoted value that begins at `j` closes: the
/// position just after the first `"` at or past `j`, or `None` when a
/// newline or the end of the text comes first.
pub open spec fn lazy_end(s: Seq<u8>, j: int) -> Option<int>
    decreases s.len() - j,
{
    if j < 0 || j >= s.len() {
        None
    } else if s[j] == QUOTE {
        Some(j + 1)
    } else if s[j] == NEWLINE {
        None
    } else {
        lazy_end(s, j + 1)
    }
}

/// Where the match of `p` that begins at `i` ends (exclusive), or `None`
/// when no match begins there.
pub open spec fn match_end_at(s: Seq<u8>, i: int, p: Pat) -> Option<int> {
    if starts_with_at(s, i, prefix_of(p)) {
        if is_lazy(p) {
            lazy_end(s, i + prefix_of(p).len())
        } else {
            Some(i + prefix_of(p).len())
        }
    } else {
        None
    }
}

pub proof fn lemma_lazy_end_bounds(s: Seq<u8>, j: int)
    ensures
        lazy_end(s, j) matches Some(e) ==> j < e <= s.len(),
    decreases s.len() - j,
{
    if 0 <= j < s.len() && s[j] != QUOTE && s[j] != NEWLINE {
        lemma_lazy_end_bounds(s, j + 1);
    }
}

pub proof fn lemma_match_end_bounds(s: Seq<u8>, i: int, p: Pat)
    ensures
        match_end_at(s, i, p) matches Some(e) ==> i < e <= s.len(),
{
    if starts_with_at(s, i, prefix_of(p)) {
        assert(prefix_of(p).len() >= 1) by {
            match p {
                Pat::FillHex => assert(fill_hex_prefix().len() == 7),
                Pat::FillAny => assert(fill_any_prefix().len() == 6),
                Pat::StrokeAny => assert(stroke_prefix().len() == 8),
                Pat::Width48 => assert(width_48().len() == 10),
                Pat::Height48 => assert(height_48().len() == 11),
                Pat::EvenOdd => assert(evenodd_marker().len() == 19),
            }
        }
        if is_lazy(p) {
            lemma_lazy_end_bounds(s, i + prefix_of(p).len());
        }
    }
}

/// The text from `i` on, with every leftmost, non-overlapping match of
/// `p` replaced by `rep`.
pub open spec fn rewrite_const(s: Seq<u8>, i: int, p: Pat, rep: Seq<u8>) -> Seq<u8>
    decreases s.len() - i,
{
    if i < 0 || i >= s.len() {
        Seq::empty()
    } else {
        match match_end_at(s, i, p) {
            Some(e) => {
                proof {
                    lemma_match_end_bounds(s, i, p);
                }
                rep + rewrite_const(s, e, p, rep)
            },
            None => seq![s[i]] + rewrite_const(s, i + 1, p, rep),
        }
    }
}

/// The text from `i` on, with each fill match `m` rewritten the way the
/// second fill pass does: to `fill="currentColor"` when `m` is not the
/// literal `fill="none"` and the evenodd marker stood in the original
/// text, and left as `m` otherwise.
pub open spec fn rewrite_fill_cond(s: Seq<u8>, i: int, evenodd: bool) -> Seq<u8>
    decreases s.len() - i,
{
    if i < 0 || i >= s.len() {
        Seq::empty()
    } else {
        match match_end_at(s, i, Pat::FillAny) {
            Some(e) => {
                proof {
                    lemma_match_end_bounds(s, i, Pat::FillAny);
                }
                (if s.subrange(i, e) != fill_none() && evenodd {
                    fill_current()
                } else {
                    s.subrange(i, e)
                }) + rewrite_fill_cond(s, e, evenodd)
            },
            None => seq![s[i]] + rewrite_fill_cond(s, i + 1, evenodd),
        }
    }
}

/// Some match of `p` begins somewhere in `s`.
pub open spec fn has_match(s: Seq<u8>, p: Pat) -> bool {
    exists|i: int| 0 <= i < s.len() && (#[trigger] match_end_at(s, i, p)) is Some
}

/// The whole recoloring, pass by pass: note whether the evenodd marker
/// stands anywhere in the original text; turn every hex fill into
/// `fill="none"`; run the conditional fill pass over the result, which
/// looks at every fill again (so also at the `fill="none"` text the
/// first pass just made); turn every stroke into `stroke="currentColor"`;
/// when no stroke matched, turn every remaining fill — `fill="none"`
/// included — into `fill="currentColor"`; and last, rewrite the literal
/// `width="48"` and `height="48"` to `100%`.
pub open spec fn recolor_spec(s: Seq<u8>) -> Seq<u8> {
    let evenodd = has_match(s, Pat::EvenOdd);
    let pass_none = rewrite_const(s, 0, Pat::FillHex, fill_none());
    let pass_cond = rewrite_fill_cond(pass_none, 0, evenodd);
    let stroke_found = has_match(pass_cond, Pat::StrokeAny);
    let pass_stroke = rewrite_const(pass_cond, 0, Pat::StrokeAny, stroke_current());
    let pass_fill = if stroke_found {
        pass_stroke
    } else {
        rewrite_const(pass_stroke, 0, Pat::FillAny, fill_current())
    };
    let pass_width = rewrite_const(pass_fill, 0, Pat::Width48, width_full());
    rewrite_const(pass_width, 0, Pat::Height48, height_full())
}

/// Whether a match of `p` goes on past its prefix up to the next quote.
fn is_lazy_pat(p: Pat) -> (r: bool)
    ensures
        r == is_lazy(p),
{
    match p {
        Pat::FillHex => true,
        Pat::FillAny => true,
        Pat::StrokeAny => true,
        Pat::Width48 => false,
        Pat::Height48 => false,
        Pat::EvenOdd => false,
    }
}

/// Builds the opening bytes that a match of `p` must begin with.
fn prefix_vec(p: Pat) -> (v: Vec<u8>)
    ensures
        v@ == prefix_of(p),
{
    match p {
        Pat::FillHex => lit_fill_hex_prefix(),
        Pat::FillAny => lit_fill_any_prefix(),
        Pat::StrokeAny => lit_stroke_prefix(),
        Pat::Width48 => lit_width_48(),
        Pat::Height48 => lit_height_48(),
        Pat::EvenOdd => lit_evenodd_marker(),
    }
}

/// Looks for a match of `p` beginning at `i` and returns where it ends
/// (exclusive).
fn match_end(s: &Vec<u8>, i: usize, p: Pat) -> (r: Option<usize>)
    ensures
        r matches Some(e) ==> match_end_at(s@, i as int, p) == Some(e as int) && i < e <= s@.len(),
        r is None ==> match_end_at(s@, i as int, p) is None,
{
    let pre = prefix_vec(p);
    let n: usize = s.len();
    if i > n || n - i < pre.len() {
        return None;
    }
    let mut k: usize = 0;
    while k < pre.len()
        invariant
            k <= pre@.len(),
            n == s@.len(),
            i + pre@.len() <= n,
            pre@ == prefix_of(p),
            forall|j: int| 0 <= j < k ==> s@[i + j] == pre@[j],
        decreases pre@.len() - k,
    {
        if s[i + k] != pre[k] {
            proof {
                assert(!starts_with_at(s@, i as int, prefix_of(p)));
            }
            return None;
        }
        k = k + 1;
    }
    proof {
        assert(starts_with_at(s@, i as int, prefix_of(p)));
        lemma_match_end_bounds(s@, i as int, p);
    }
    if !is_lazy_pat(p) {
        return Some(i + pre.len());
    }
    let mut j: usize = i + pre.len();
    while j < s.len()
        invariant
            i + pre@.len() <= j <= s@.len(),
            pre@ == prefix_of(p),
            starts_with_at(s@, i as int, prefix_of(p)),
            is_lazy(p),
            lazy_end(s@, i + prefix_of(p).len()) == lazy_end(s@, j as int),
        decreases s@.len() - j,
    {
        let b = s[j];
        if b == QUOTE {
            proof {
                lemma_match_end_bounds(s@, i as int, p);
            }
            return Some(j + 1);
        }
        if b == NEWLINE {
            return None;
        }
        j = j + 1;
    }
    None
}

/// Tells whether a match of `p` begins anywhere in `s`.
fn find_pat(s: &Vec<u8>, p: Pat) -> (r: bool)
    ensures
        r == has_match(s@, p),
{
    let mut i: usize = 0;
    while i < s.len()
        invariant
            i <= s@.len(),
            forall|k: int| 0 <= k < i ==> (#[trigger] match_end_at(s@, k, p)) is None,
        decreases s@.len() - i,
    {
        match match_end(s, i, p) {
            Some(_e) => {
                proof {
                    assert(match_end_at(s@, i as int, p) is Some);
                }
                return true;
            },
            None => {
                i = i + 1;
            },
        }
    }
    false
}

/// Replaces every leftmost, non-overlapping match of `p` in `s` by `rep`.
fn rewrite_pat(s: &Vec<u8>, p: Pat, rep: &Vec<u8>) -> (out: Vec<u8>)
    ensures
        out@ == rewrite_const(s@, 0, p, rep@),
{
    let mut out: Vec<u8> = Vec::new();
    let mut i: usize = 0;
    while i < s.len()
        invariant
            i <= s@.len(),
            rewrite_const(s@, 0, p, rep@) == out@ + rewrite_const(s@, i as int, p, rep@),
        decreases s@.len() - i,
    {
        let ghost out_pre = out@;
        match match_end(s, i, p) {
            Some(e) => {
                push_all(&mut out, rep);
                proof {
                    assert(rewrite_const(s@, i as int, p, rep@) == rep@ + rewrite_const(
                        s@,
                        e as int,
                        p,
                        rep@,
                    ));
                    assert(out_pre + (rep@ + rewrite_const(s@, e as int, p, rep@)) =~= out@
                        + rewrite_const(s@, e as int, p, rep@));
                }
                i = e;
            },
            None => {
                out.push(s[i]);
                proof {
                    assert(rewrite_const(s@, i as int, p, rep@) == seq![s@[i as int]]
                        + rewrite_const(s@, i + 1, p, rep@));
                    assert(out_pre + (seq![s@[i as int]] + rewrite_const(s@, i + 1, p, rep@)) =~=
                        out@ + rewrite_const(s@, i + 1, p, rep@));
                }
                i = i + 1;
            },
        }
    }
    proof {
        assert(out@ + rewrite_const(s@, s@.len() as int, p, rep@) =~= out@);
    }
    out
}

/// Runs the conditional fill pass: each fill match that is not the
/// literal `fill="none"` becomes `fill="currentColor"` when `evenodd`
/// holds; every other byte is kept.
fn rewrite_fill_conditional(s: &Vec<u8>, evenodd: bool) -> (out: Vec<u8>)
    ensures
        out@ == rewrite_fill_cond(s@, 0, evenodd),
{
    let none_lit = lit_fill_none();
    let cur_lit = lit_fill_current();
    let mut out: Vec<u8> = Vec::new();
    let mut i: usize = 0;
    while i < s.len()
        invariant
            i <= s@.len(),
            none_lit@ == fill_none(),
            cur_lit@ == fill_current(),
            rewrite_fill_cond(s@, 0, evenodd) == out@ + rewrite_fill_cond(s@, i as int, evenodd),
        decreases s@.len() - i,
    {
        let ghost out_pre = out@;
        match match_end(s, i, Pat::FillAny) {
            Some(e) => {
                let keep = range_eq(s, i, e, &none_lit);
                let ghost piece = (if s@.subrange(i as int, e as int) != fill_none() && evenodd {
                    fill_current()
                } else {
                    s@.subrange(i as int, e as int)
                });
                if !keep && evenodd {
                    push_all(&mut out, &cur_lit);
                } else {
                    push_range(&mut out, s, i, e);
                }
                proof {
                    assert(out@ == out_pre + piece);
                    assert(rewrite_fill_cond(s@, i as int, evenodd) == piece + rewrite_fill_cond(
                        s@,
                        e as int,
                        evenodd,
                    ));
                    assert(out_pre + (piece + rewrite_fill_cond(s@, e as int, evenodd)) =~= out@
                        + rewrite_fill_cond(s@, e as int, evenodd));
                }
                i = e;
            },
            None => {
                out.push(s[i]);
                proof {
                    assert(rewrite_fill_cond(s@, i as int, evenodd) == seq![s@[i as int]]
                        + rewrite_fill_cond(s@, i + 1, evenodd));
                    assert(out_pre + (seq![s@[i as int]] + rewrite_fill_cond(s@, i + 1, evenodd))
                        =~= out@ + rewrite_fill_cond(s@, i + 1, evenodd));
                }
                i = i + 1;
            },
        }
    }
    proof {
        assert(out@ + rewrite_fill_cond(s@, s@.len() as int, evenodd) =~= out@);
    }
    out
}

/// Rewrites one SVG text: hex fills become `fill="none"`, the conditional
/// fill pass may turn other fills into `fill="currentColor"` under the
/// evenodd marker, strokes become `stroke="currentColor"`, every fill
/// left — `fill="none"` included — becomes `fill="currentColor"` when no
/// stroke matched, and the literal 48-pixel width and height become
/// `100%`.
pub fn change_svg_color(text: &Vec<u8>) -> (out: Vec<u8>)
    ensures
        out@ == recolor_spec(text@),
{
    let evenodd = find_pat(text, Pat::EvenOdd);
    let none_rep = lit_fill_none();
    let pass_none = rewrite_pat(text, Pat::FillHex, &none_rep);
    let pass_cond = rewrite_fill_conditional(&pass_none, evenodd);
    let stroke_found = find_pat(&pass_cond, Pat::StrokeAny);
    let stroke_rep = lit_stroke_current();
    let pass_stroke = rewrite_pat(&pass_cond, Pat::StrokeAny, &stroke_rep);
    let fill_rep = lit_fill_current();
    let pass_fill = if stroke_found {
        pass_stroke
    } else {
        rewrite_pat(&pass_stroke, Pat::FillAny, &fill_rep)
    };
    let width_rep = lit_width_full();
    let pass_width = rewrite_pat(&pass_fill, Pat::Width48, &width_rep);
    let height_rep = lit_height_full();
    rewrite_pat(&pass_width, Pat::Height48, &height_rep)
}

/// Law: the recolorer is deterministic; equal input texts give equal
/// output texts.
pub proof fn lemma_recolor_deterministic(a: Seq<u8>, b: Seq<u8>)
    requires
        a == b,
    ensures
        recolor_spec(a) == recolor_spec(b),
{
}

proof fn lemma_rewrite_const_no_match_from(s: Seq<u8>, i: int, p: Pat, rep: Seq<u8>)
    requires
        0 <= i <= s.len(),
        forall|k: int| i <= k < s.len() ==> (#[trigger] match_end_at(s, k, p)) is None,
    ensures
        rewrite_const(s, i, p, rep) == s.subrange(i, s.len() as int),
    decreases s.len() - i,
{
    if i < s.len() {
        lemma_rewrite_const_no_match_from(s, i + 1, p, rep);
        assert(seq![s[i]] + s.subrange(i + 1, s.len() as int) =~= s.subrange(i, s.len() as int));
    } else {
        assert(s.subrange(i, s.len() as int) =~= Seq::<u8>::empty());
    }
}

/// Law: a pass whose pattern matches nowhere in the text returns the text
/// unchanged; in particular, a text without `width="48"` or
/// `height="48"` keeps those fields as they are.
pub proof fn lemma_absent_pattern_unchanged(s: Seq<u8>, p: Pat, rep: Seq<u8>)
    requires
        !has_match(s, p),
    ensures
        rewrite_const(s, 0, p, rep) == s,
{
    lemma_rewrite_const_no_match_from(s, 0, p, rep);
    assert(s.subrange(0, s.len() as int) =~= s);
}

proof fn lemma_fill_cond_identity_from(s: Seq<u8>, i: int)
    requires
        0 <= i <= s.len(),
    ensures
        rewrite_fill_cond(s, i, false) == s.subrange(i, s.len() as int),
    decreases s.len() - i,
{
    if i < s.len() {
        match match_end_at(s, i, Pat::FillAny) {
            Some(e) => {
                lemma_match_end_bounds(s, i, Pat::FillAny);
                lemma_fill_cond_identity_from(s, e);
                assert(s.subrange(i, e) + s.subrange(e, s.len() as int) =~= s.subrange(
                    i,
                    s.len() as int,
                ));
            },
            None => {
                lemma_fill_cond_identity_from(s, i + 1);
                assert(seq![s[i]] + s.subrange(i + 1, s.len() as int) =~= s.subrange(
                    i,
                    s.len() as int,
                ));
            },
        }
    } else {
        assert(s.subrange(i, s.len() as int) =~= Seq::<u8>::empty());
    }
}

/// Law: without the evenodd marker the conditional fill pass changes
/// nothing, so a hex fill turned `fill="none"` stays `fill="none"`.
pub proof fn lemma_no_evenodd_keeps_fills(s: Seq<u8>)
    ensures
        rewrite_fill_cond(s, 0, false) == s,
{
    if s.len() == 0 {
    } else {
        lemma_fill_cond_identity_from(s, 0);
        assert(s.subrange(0, s.len() as int) =~= s);
    }
}

/// Builds the bytes of fill hex prefix
fn lit_fill_hex_prefix() -> (v: Vec<u8>)
    ensures
        v@ == fill_hex_prefix(),
{
    let mut v: Vec<u8> = Vec::new();
    v.push(102u8);
    v.push(105u8);
    v.push(108u8);
    v.push(108u8);
    v.push(61u8);
    v.push(34u8);
    v.push(35u8);
    v
}

/// Builds the bytes of fill any prefix
fn lit_fill_any_prefix() -> (v: Vec<u8>)
    ensures
        v@ == fill_any_prefix(),
{
    let mut v: Vec<u8> = Vec::new();
    v.push(102u8);
    v.push(105u8);
    v.push(108u8);
    v.push(108u8);
    v.push(61u8);
    v.push(34u8);
    v
}

/// Builds the bytes of stroke prefix
fn lit_stroke_prefix() -> (v: Vec<u8>)
    ensures
        v@ == stroke_prefix(),
{
    let mut v: Vec<u8> = Vec::new();
    v.push(115u8);
    v.push(116u8);
    v.push(114u8);
    v.push(111u8);
    v.push(107u8);
    v.push(101u8);
    v.push(61u8);
    v.push(34u8);
    v
}

/// Builds the bytes of width 48
fn lit_width_48() -> (v: Vec<u8>)
    ensures
        v@ == width_48(),
{
    let mut v: Vec<u8> = Vec::new();
    v.push(119u8);
    v.push(105u8);
    v.push(100u8);
    v.push(116u8);
    v.push(104u8);
    v.push(61u8);
    v.push(34u8);
    v.push(52u8);
    v.push(56u8);
    v.push(34u8);
    v
}

/// Builds the bytes of height 48
fn lit_height_48() -> (v: Vec<u8>)
    ensures
        v@ == height_48(),
{
    let mut v: Vec<u8> = Vec::new();
    v.push(104u8);
    v.push(101u8);
    v.push(105u8);
    v.push(103u8);
    v.push(104u8);
    v.push(116u8);
    v.push(61u8);
    v.push(34u8);
    v.push(52u8);
    v.push(56u8);
    v.push(34u8);
    v
}

/// Builds the bytes of evenodd marker
fn lit_evenodd_marker() -> (v: Vec<u8>)
    ensures
        v@ == evenodd_marker(),
{
    let mut v: Vec<u8> = Vec::new();
    v.push(102u8);
    v.push(105u8);
    v.push(108u8);
    v.push(108u8);
    v.push(45u8);
    v.push(114u8);
    v.push(117u8);
    v.push(108u8);
    v.push(101u8);
    v.push(61u8);
    v.push(34u8);
    v.push(101u8);
    v.push(118u8);
    v.push(101u8);
    v.push(110u8);
    v.push(111u8);
    v.push(100u8);
    v.push(100u8);
    v.push(34u8);
    v
}

/// Builds the bytes of fill none
fn lit_fill_none() -> (v: Vec<u8>)
    ensures
        v@ == fill_none(),
{
    let mut v: Vec<u8> = Vec::new();
    v.push(102u8);
    v.push(105u8);
    v.push(108u8);
    v.push(108u8);
    v.push(61u8);
    v.push(34u8);
    v.push(110u8);
    v.push(111u8);
    v.push(110u8);
    v.push(101u8);
    v.push(34u8);
    v
}

/// Builds the bytes of fill current
fn lit_fill_current() -> (v: Vec<u8>)
    ensures
        v@ == fill_current(),
{
    let mut v: Vec<u8> = Vec::new();
    v.push(102u8);
    v.push(105u8);
    v.push(108u8);
    v.push(108u8);
    v.push(61u8);
    v.push(34u8);
    v.push(99u8);
    v.push(117u8);
    v.push(114u8);
    v.push(114u8);
    v.push(101u8);
    v.push(110u8);
    v.push(116u8);
    v.push(67u8);
    v.push(111u8);
    v.push(108u8);
    v.push(111u8);
    v.push(114u8);
    v.push(34u8);
    v
}

/// Builds the bytes of stroke current
fn lit_stroke_current() -> (v: Vec<u8>)
    ensures
        v@ == stroke_current(),
{
    let mut v: Vec<u8> = Vec::new();
    v.push(115u8);
    v.push(116u8);
    v.push(114u8);
    v.push(111u8);
    v.push(107u8);
    v.push(101u8);
    v.push(61u8);
    v.push(34u8);
    v.push(99u8);
    v.push(117u8);
    v.push(114u8);
    v.push(114u8);
    v.push(101u8);
    v.push(110u8);
    v.push(116u8);
    v.push(67u8);
    v.push(111u8);
    v.push(108u8);
    v.push(111u8);
    v.push(114u8);
    v.push(34u8);
    v
}

/// Builds the bytes of width full
fn lit_width_full() -> (v: Vec<u8>)
    ensures
        v@ == width_full(),
{
    let mut v: Vec<u8> = Vec::new();
    v.push(119u8);
    v.push(105u8);
    v.push(100u8);
    v.push(116u8);
    v.push(104u8);
    v.push(61u8);
    v.push(34u8);
    v.push(49u8);
    v.push(48u8);
    v.push(48u8);
    v.push(37u8);
    v.push(34u8);
    v
}

/// Builds the bytes of height full
fn lit_height_full() -> (v: Vec<u8>)
    ensures
        v@ == height_full(),
{
    let mut v: Vec<u8> = Vec::new();
    v.push(104u8);
    v.push(101u8);
    v.push(105u8);
    v.push(103u8);
    v.push(104u8);
    v.push(116u8);
    v.push(61u8);
    v.push(34u8);
    v.push(49u8);
    v.push(48u8);
    v.push(48u8);
    v.push(37u8);
    v.push(34u8);
    v
}
} // verus!
