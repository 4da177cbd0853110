//! Grapheme-cluster boundaries of the line, via `unicode_segmentation`.
//!
//! Cursor movement by "one character" lands on Unicode extended
//! grapheme-cluster boundaries.  Which byte offsets of a string are such
//! boundaries is decided by the Unicode segmentation algorithm; that
//! boundary set is named here by the uninterpreted predicate
//! [`is_grapheme_boundary`], and the two trusted wrappers state what
//! `unicode_segmentation`'s cursor queries return in terms of it.

use unicode_segmentation::GraphemeCursor;
use vstd::prelude::*;
use vstd::utf8::*;

verus! {

/// True when byte offset `i` is an extended grapheme-cluster boundary of
/// the UTF-8 string `s`, as decided by `unicode_segmentation`'s
/// segmentation algorithm.  The boundary set depends on the bytes of the
/// string alone.
pub uninterp spec fn is_grapheme_boundary(s: Seq<u8>, i: int) -> bool;

/// `q` is the nearest grapheme boundary strictly after `pos`.
pub open spec fn is_next_grapheme_boundary(s: Seq<u8>, pos: int, q: int) -> bool {
    &&& pos < q <= s.len()
    &&& is_grapheme_boundary(s, q)
    &&& forall|r: int| pos < r < q ==> !is_grapheme_boundary(s, r)
}

/// `q` is the nearest grapheme boundary strictly before `pos`.
pub open spec fn is_prev_grapheme_boundary(s: Seq<u8>, pos: int, q: int) -> bool {
    &&& 0 <= q < pos
    &&& is_grapheme_boundary(s, q)
    &&& forall|r: int| q < r < pos ==> !is_grapheme_boundary(s, r)
}

/// The nearest grapheme boundary after `pos`, or `pos` itself when no
/// boundary follows.
pub open spec fn next_gb(s: Seq<u8>, pos: int) -> int {
    if exists|q: int| is_next_grapheme_boundary(s, pos, q) {
        choose|q: int| is_next_grapheme_boundary(s, pos, q)
    } else {
        pos
    }
}

/// The nearest grapheme boundary before `pos`, or `pos` itself when no
/// boundary precedes.
pub open spec fn prev_gb(s: Seq<u8>, pos: int) -> int {
    if exists|q: int| is_prev_grapheme_boundary(s, pos, q) {
        choose|q: int| is_prev_grapheme_boundary(s, pos, q)
    } else {
        pos
    }
}

/// The nearest-boundary-after relation is functional.
pub proof fn lemma_next_unique(s: Seq<u8>, pos: int, q1: int, q2: int)
    requires
        is_next_grapheme_boundary(s, pos, q1),
        is_next_grapheme_boundary(s, pos, q2),
    ensures
        q1 == q2,
{
    if q1 < q2 {
        assert(!is_grapheme_boundary(s, q1));
    }
    if q2 < q1 {
        assert(!is_grapheme_boundary(s, q2));
    }
}

/// The nearest-boundary-before relation is functional.
pub proof fn lemma_prev_unique(s: Seq<u8>, pos: int, q1: int, q2: int)
    requires
        is_prev_grapheme_boundary(s, pos, q1),
        is_prev_grapheme_boundary(s, pos, q2),
    ensures
        q1 == q2,
{
    if q1 < q2 {
        assert(!is_grapheme_boundary(s, q2));
    }
    if q2 < q1 {
        assert(!is_grapheme_boundary(s, q1));
    }
}

/// A witness for the nearest boundary after `pos` pins down `next_gb`.
pub proof fn lemma_next_gb_is(s: Seq<u8>, pos: int, q: int)
    requires
        is_next_grapheme_boundary(s, pos, q),
    ensures
        next_gb(s, pos) == q,
{
    let q0 = choose|q0: int| is_next_grapheme_boundary(s, pos, q0);
    lemma_next_unique(s, pos, q0, q);
}

/// A witness for the nearest boundary before `pos` pins down `prev_gb`.
pub proof fn lemma_prev_gb_is(s: Seq<u8>, pos: int, q: int)
    requires
        is_prev_grapheme_boundary(s, pos, q),
    ensures
        prev_gb(s, pos) == q,
{
    let q0 = choose|q0: int| is_prev_grapheme_boundary(s, pos, q0);
    lemma_prev_unique(s, pos, q0, q);
}

/// At the very end of the line, forward movement has nowhere to go.
pub proof fn lemma_next_gb_at_end(s: Seq<u8>, pos: int)
    requires
        pos >= s.len(),
    ensures
        next_gb(s, pos) == pos,
{
    assert(forall|q: int| !is_next_grapheme_boundary(s, pos, q));
}

/// At the very start of the line, backward movement has nowhere to go.
pub proof fn lemma_prev_gb_at_start(s: Seq<u8>, pos: int)
    requires
        pos <= 0,
    ensures
        prev_gb(s, pos) == pos,
{
    assert(forall|q: int| !is_prev_grapheme_boundary(s, pos, q));
}

/// Stepping forward one grapheme from a boundary and then backward one
/// grapheme returns to the starting offset, unless the forward step was
/// already clamped at the end of the line.
pub proof fn lemma_forward_then_backward(s: Seq<u8>, c: int)
    requires
        0 <= c,
        is_grapheme_boundary(s, c),
    ensures
        next_gb(s, c) != c ==> prev_gb(s, next_gb(s, c)) == c,
{
    if next_gb(s, c) != c {
        let p = next_gb(s, c);
        assert(is_next_grapheme_boundary(s, c, p)) by {
            assert(exists|q: int| is_next_grapheme_boundary(s, c, q)) by {
                if !exists|q: int| is_next_grapheme_boundary(s, c, q) {
                    assert(next_gb(s, c) == c);
                }
            }
        }
        assert(is_prev_grapheme_boundary(s, p, c));
        lemma_prev_gb_is(s, p, c);
    }
}

/// Stepping backward one grapheme from a boundary and then forward one
/// grapheme returns to the starting offset, unless the backward step was
/// already clamped at the start of the line.
pub proof fn lemma_backward_then_forward(s: Seq<u8>, c: int)
    requires
        c <= s.len(),
        is_grapheme_boundary(s, c),
    ensures
        prev_gb(s, c) != c ==> next_gb(s, prev_gb(s, c)) == c,
{
    if prev_gb(s, c) != c {
        let p = prev_gb(s, c);
        assert(is_prev_grapheme_boundary(s, c, p)) by {
            assert(exists|q: int| is_prev_grapheme_boundary(s, c, q)) by {
                if !exists|q: int| is_prev_grapheme_boundary(s, c, q) {
                    assert(prev_gb(s, c) == c);
                }
            }
        }
        assert(is_next_grapheme_boundary(s, p, c));
        lemma_next_gb_is(s, p, c);
    }
}

/// The offset reached by stepping forward `n` grapheme boundaries,
/// clamping at the end of the line.
pub open spec fn fwd_graphemes(s: Seq<u8>, pos: int, n: nat) -> int
    decreases n,
{
    if n == 0 {
        pos
    } else {
        next_gb(s, fwd_graphemes(s, pos, (n - 1) as nat))
    }
}

/// The offset reached by stepping backward `n` grapheme boundaries,
/// clamping at the start of the line.
pub open spec fn back_graphemes(s: Seq<u8>, pos: int, n: nat) -> int
    decreases n,
{
    if n == 0 {
        pos
    } else {
        prev_gb(s, back_graphemes(s, pos, (n - 1) as nat))
    }
}

/// Once forward stepping reaches the end of the line it stays there.
pub proof fn lemma_fwd_stays(s: Seq<u8>, pos: int, k: nat, n: nat)
    requires
        k <= n,
        fwd_graphemes(s, pos, k) >= s.len(),
    ensures
        fwd_graphemes(s, pos, n) == fwd_graphemes(s, pos, k),
    decreases n,
{
    if n > k {
        lemma_fwd_stays(s, pos, k, (n - 1) as nat);
        lemma_next_gb_at_end(s, fwd_graphemes(s, pos, (n - 1) as nat));
    }
}

/// Backward stepping never carries the cursor forward.
pub proof fn lemma_back_graphemes_le(s: Seq<u8>, pos: int, n: nat)
    ensures
        back_graphemes(s, pos, n) <= pos,
    decreases n,
{
    if n > 0 {
        lemma_back_graphemes_le(s, pos, (n - 1) as nat);
        let p = back_graphemes(s, pos, (n - 1) as nat);
        if exists|q: int| is_prev_grapheme_boundary(s, p, q) {
            let q = choose|q: int| is_prev_grapheme_boundary(s, p, q);
            assert(q < p);
        }
    }
}

/// Once backward stepping reaches the start of the line it stays there.
pub proof fn lemma_back_stays(s: Seq<u8>, pos: int, k: nat, n: nat)
    requires
        k <= n,
        back_graphemes(s, pos, k) <= 0,
    ensures
        back_graphemes(s, pos, n) == back_graphemes(s, pos, k),
    decreases n,
{
    if n > k {
        lemma_back_stays(s, pos, k, (n - 1) as nat);
        lemma_prev_gb_at_start(s, back_graphemes(s, pos, (n - 1) as nat));
    }
}

/// Relies on `unicode_segmentation::GraphemeCursor::next_boundary`
/// (extended clusters, whole string as one chunk): it returns the nearest
/// grapheme boundary strictly after `pos`, or `None` when `pos` is already
/// the end of the string.  Grapheme boundaries are always codepoint
/// boundaries.
#[verifier::external_body]
pub(crate) fn next_grapheme_boundary(line: &Vec<u8>, pos: usize) -> (r: Option<usize>)
    requires
        valid_utf8(line@),
        is_char_boundary(line@, pos as int),
        pos <= line@.len(),
    ensures
        match r {
            Some(p) => {
                &&& is_next_grapheme_boundary(line@, pos as int, p as int)
                &&& is_grapheme_boundary(line@, p as int)
                &&& is_char_boundary(line@, p as int)
                &&& pos < p <= line@.len()
            },
            None => pos == line@.len(),
        },
{
    let s = match core::str::from_utf8(line.as_slice()) {
        Ok(s) => s,
        Err(_) => return None,
    };
    let mut cursor = GraphemeCursor::new(pos, s.len(), true);
    match cursor.next_boundary(s, 0) {
        Ok(Some(p)) => Some(p),
        _ => None,
    }
}

/// Relies on `unicode_segmentation::GraphemeCursor::prev_boundary`
/// (extended clusters, whole string as one chunk): it returns the nearest
/// grapheme boundary strictly before `pos`, or `None` when `pos` is the
/// start of the string.  Grapheme boundaries are always codepoint
/// boundaries.
#[verifier::external_body]
pub(crate) fn prev_grapheme_boundary(line: &Vec<u8>, pos: usize) -> (r: Option<usize>)
    requires
        valid_utf8(line@),
        is_char_boundary(line@, pos as int),
        pos <= line@.len(),
    ensures
        match r {
            Some(p) => {
                &&& is_prev_grapheme_boundary(line@, pos as int, p as int)
                &&& is_grapheme_boundary(line@, p as int)
                &&& is_char_boundary(line@, p as int)
                &&& p < pos
            },
            None => pos == 0,
        },
{
    let s = match core::str::from_utf8(line.as_slice()) {
        Ok(s) => s,
        Err(_) => return None,
    };
    let mut cursor = GraphemeCursor::new(pos, s.len(), true);
    match cursor.prev_boundary(s, 0) {
        Ok(Some(p)) => Some(p),
        _ => None,
    }
}

} // verus!
