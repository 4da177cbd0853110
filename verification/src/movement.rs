//! The movement evaluator: computes a new byte cursor from the current
//! line, the current cursor, and a [`Movement`] request.
//!
//! Character movement steps over grapheme-cluster boundaries; word movement
//! steps over Unicode scalar values, treating maximal non-whitespace runs
//! as words.  The evaluator never produces an out-of-bounds or
//! mid-codepoint offset: it clamps at the ends of the line instead.

use crate::actions::Movement;
use crate::grapheme::{
    back_graphemes, fwd_graphemes, lemma_back_graphemes_le, lemma_back_stays, lemma_fwd_stays,
    lemma_next_gb_is, lemma_prev_gb_is, next_grapheme_boundary, prev_grapheme_boundary,
};
use crate::text::{
    is_ws_at, is_ws_scalar, lemma_boundary_step, lemma_suffix_at_boundary, scalar_at, scalar_len,
    scalar_len_at,
};
use vstd::prelude::*;
use vstd::utf8::*;

verus! {

/// A sequence of `usize` values as mathematical integers.
pub open spec fn to_int_seq(v: Seq<usize>) -> Seq<int> {
    v.map_values(|u: usize| u as int)
}

/// The byte offsets at which the characters of `s` start, from offset `i` on.
pub open spec fn char_starts_from(s: Seq<u8>, i: int) -> Seq<int>
    decreases s.len() - i
        when valid_utf8(s) && is_char_boundary(s, i) && 0 <= i <= s.len() via
    char_starts_from_decreases
{
    if i >= s.len() {
        Seq::empty()
    } else {
        seq![i] + char_starts_from(s, i + scalar_len_at(s, i))
    }
}

#[via_fn]
proof fn char_starts_from_decreases(s: Seq<u8>, i: int) {
    if i < s.len() {
        lemma_boundary_step(s, i);
    }
}

/// The byte offsets at which the characters of `s` start.
pub open spec fn char_starts(s: Seq<u8>) -> Seq<int> {
    char_starts_from(s, 0)
}

/// Shape of the character-start table: it is empty only for the empty
/// line, begins at the given offset, holds in-bounds character boundaries,
/// and steps by exactly one character's encoding at a time.
pub proof fn lemma_char_starts_props(s: Seq<u8>, i: int)
    requires
        valid_utf8(s),
        is_char_boundary(s, i),
        0 <= i <= s.len(),
    ensures
        char_starts_from(s, i).len() == 0 <==> i == s.len(),
        char_starts_from(s, i).len() > 0 ==> char_starts_from(s, i)[0] == i,
        forall|k: int|
            0 <= k < char_starts_from(s, i).len() ==> i <= #[trigger] char_starts_from(s, i)[k]
                < s.len(),
        forall|k: int|
            0 <= k < char_starts_from(s, i).len() ==> is_char_boundary(
                s,
                #[trigger] char_starts_from(s, i)[k],
            ),
        forall|k: int|
            0 < k < char_starts_from(s, i).len() ==> #[trigger] char_starts_from(s, i)[k]
                == char_starts_from(s, i)[k - 1] + scalar_len_at(s, char_starts_from(s, i)[k - 1]),
        char_starts_from(s, i).len() > 0 ==> char_starts_from(s, i).last() + scalar_len_at(
            s,
            char_starts_from(s, i).last(),
        ) == s.len(),
    decreases s.len() - i,
{
    if i < s.len() {
        lemma_boundary_step(s, i);
        let ln = scalar_len_at(s, i);
        lemma_char_starts_props(s, i + ln);
        let tail = char_starts_from(s, i + ln);
        let cs = char_starts_from(s, i);
        assert(cs == seq![i] + tail);
        assert(cs[0] == i);
        assert(forall|k: int| 0 < k < cs.len() ==> cs[k] == tail[k - 1]);
        if tail.len() > 0 {
            assert(cs[1] == tail[0] == i + ln);
            assert(cs.last() == tail.last());
        }
    }
}

/// The index of the first occurrence of `x` in `cs`, or a negative value
/// when `x` does not occur.
pub open spec fn find_idx(cs: Seq<int>, x: int) -> int
    decreases cs.len(),
{
    if cs.len() == 0 {
        -1
    } else if cs[0] == x {
        0
    } else {
        let r = find_idx(cs.drop_first(), x);
        if r < 0 {
            -1
        } else {
            r + 1
        }
    }
}

/// `find_idx` returns the first occurrence, or a negative value exactly
/// when there is none.
pub proof fn lemma_find_idx(cs: Seq<int>, x: int)
    ensures
        find_idx(cs, x) < 0 ==> forall|j: int| 0 <= j < cs.len() ==> cs[j] != x,
        find_idx(cs, x) >= 0 ==> {
            &&& find_idx(cs, x) < cs.len()
            &&& cs[find_idx(cs, x)] == x
            &&& forall|j: int| 0 <= j < find_idx(cs, x) ==> cs[j] != x
        },
    decreases cs.len(),
{
    if cs.len() > 0 && cs[0] != x {
        lemma_find_idx(cs.drop_first(), x);
        assert(forall|j: int| 0 < j < cs.len() ==> cs[j] == cs.drop_first()[j - 1]);
    }
}

/// Whitespace flag of the character starting at byte offset `b`.
pub open spec fn ws_at(s: Seq<u8>, b: int) -> bool {
    is_ws_scalar(scalar_at(s, b))
}

/// First character position at or after `cp` that is past the end or
/// whitespace.
pub open spec fn skip_nonws(s: Seq<u8>, cs: Seq<int>, cp: int) -> int
    decreases cs.len() - cp
        when 0 <= cp
{
    if cp >= cs.len() || ws_at(s, cs[cp]) {
        cp
    } else {
        skip_nonws(s, cs, cp + 1)
    }
}

/// First character position at or after `cp` that is past the end or
/// not whitespace.
pub open spec fn skip_ws(s: Seq<u8>, cs: Seq<int>, cp: int) -> int
    decreases cs.len() - cp
        when 0 <= cp
{
    if cp >= cs.len() || !ws_at(s, cs[cp]) {
        cp
    } else {
        skip_ws(s, cs, cp + 1)
    }
}

/// One forward-word step from character position `cp`: skip the current
/// run of non-whitespace, then the following run of whitespace.
pub open spec fn fw_once(s: Seq<u8>, cs: Seq<int>, cp: int) -> int {
    skip_ws(s, cs, skip_nonws(s, cs, cp))
}

/// `n` forward-word steps from character position `cp`.
pub open spec fn fw_steps(s: Seq<u8>, cs: Seq<int>, cp: int, n: nat) -> int
    decreases n,
{
    if n == 0 {
        cp
    } else {
        fw_steps(s, cs, fw_once(s, cs, cp), (n - 1) as nat)
    }
}

/// Backward scan for a word start: the position following the nearest
/// whitespace character at or before position `k`, or the start of the
/// line when there is none.
pub open spec fn bw_scan(s: Seq<u8>, cs: Seq<int>, k: int) -> int
    decreases k + 1
        when k < cs.len()
{
    if k < 0 {
        0
    } else if ws_at(s, cs[k]) {
        k + 1
    } else {
        bw_scan(s, cs, k - 1)
    }
}

/// One backward-word step from character position `cp`: scan backward,
/// starting just before the previous character, for a boundary that
/// follows whitespace.
pub open spec fn bw_once(s: Seq<u8>, cs: Seq<int>, cp: int) -> int {
    bw_scan(s, cs, cp - 2)
}

/// `n` backward-word steps from character position `cp`, stopping at the
/// first character.
pub open spec fn bw_steps(s: Seq<u8>, cs: Seq<int>, cp: int, n: nat) -> int
    decreases n,
{
    if n == 0 || cp == 0 {
        cp
    } else {
        bw_steps(s, cs, bw_once(s, cs, cp), (n - 1) as nat)
    }
}

/// The byte offset a movement carries the cursor to.
///
/// This is the specification the executable evaluator is proved against:
/// grapheme-cluster steps for character movement, scalar-run scanning for
/// word movement, and the two line ends.
pub open spec fn move_target(s: Seq<u8>, cursor: int, movement: Movement) -> int {
    match movement {
        Movement::BackwardChar(n) => back_graphemes(s, cursor, n as nat),
        Movement::ForwardChar(n) => fwd_graphemes(s, cursor, n as nat),
        Movement::StartOfLine => 0,
        Movement::EndOfLine => s.len() as int,
        Movement::BackwardWord(n) => {
            let cs = char_starts(s);
            if cs.len() == 0 {
                cursor
            } else {
                let f = find_idx(cs, cursor);
                let cp0 = if f >= 0 {
                    f
                } else {
                    cs.len() - 1
                };
                cs[bw_steps(s, cs, cp0, n as nat)]
            }
        },
        Movement::ForwardWord(n) => {
            let cs = char_starts(s);
            if cs.len() == 0 {
                cursor
            } else {
                let f = find_idx(cs, cursor);
                let cp0 = if f >= 0 {
                    f
                } else {
                    cs.len() as int
                };
                let cp = fw_steps(s, cs, cp0, n as nat);
                if cp < cs.len() {
                    cs[cp]
                } else {
                    s.len() as int
                }
            }
        },
    }
}

/// Builds the character-start table of the line.
pub fn char_start_offsets(line: &Vec<u8>) -> (r: Vec<usize>)
    requires
        valid_utf8(line@),
    ensures
        to_int_seq(r@) == char_starts(line@),
{
    let mut r: Vec<usize> = Vec::new();
    let mut p: usize = 0;
    proof {
        assert(is_char_boundary(line@, 0));
        assert(to_int_seq(r@) =~= Seq::<int>::empty());
    }
    while p < line.len()
        invariant
            valid_utf8(line@),
            is_char_boundary(line@, p as int),
            p <= line@.len(),
            to_int_seq(r@) + char_starts_from(line@, p as int) == char_starts(line@),
        decreases line@.len() - p,
    {
        let ghost old_r = r@;
        r.push(p);
        let step = scalar_len(line, p);
        proof {
            assert(char_starts_from(line@, p as int) == seq![p as int] + char_starts_from(
                line@,
                p + step,
            ));
            assert(to_int_seq(r@) =~= to_int_seq(old_r) + seq![p as int]);
            assert(to_int_seq(r@) + char_starts_from(line@, p + step) =~= to_int_seq(old_r) + (
            seq![p as int] + char_starts_from(line@, p + step)));
        }
        p = p + step;
    }
    proof {
        assert(char_starts_from(line@, p as int) =~= Seq::<int>::empty());
        assert(to_int_seq(r@) + Seq::<int>::empty() =~= to_int_seq(r@));
    }
    r
}

/// Finds the character position whose start offset equals `cursor`.
fn find_start_index(starts: &Vec<usize>, cursor: usize) -> (r: Option<usize>)
    ensures
        match r {
            Some(k) => find_idx(to_int_seq(starts@), cursor as int) == k as int && k
                < starts@.len(),
            None => find_idx(to_int_seq(starts@), cursor as int) < 0,
        },
{
    let ghost cs = to_int_seq(starts@);
    let mut k: usize = 0;
    while k < starts.len()
        invariant
            cs == to_int_seq(starts@),
            k <= starts@.len(),
            forall|j: int| 0 <= j < k ==> cs[j] != cursor as int,
        decreases starts@.len() - k,
    {
        if starts[k] == cursor {
            proof {
                lemma_find_idx(cs, cursor as int);
                assert(cs[k as int] == cursor as int);
                let f = find_idx(cs, cursor as int);
                if f < 0 {
                    assert(false);
                }
                if f < k as int {
                    assert(cs[f] == cursor as int);
                    assert(false);
                }
                if f > k as int {
                    assert(cs[k as int] != cursor as int);
                    assert(false);
                }
            }
            return Some(k);
        }
        k = k + 1;
    }
    proof {
        lemma_find_idx(cs, cursor as int);
        if find_idx(cs, cursor as int) >= 0 {
            assert(cs[find_idx(cs, cursor as int)] == cursor as int);
            assert(false);
        }
    }
    None
}

/// Steps the cursor backward over `n` grapheme clusters, clamping at the
/// start of the line.
fn eval_backward_char(line: &Vec<u8>, cursor: usize, n: usize) -> (r: usize)
    requires
        valid_utf8(line@),
        is_char_boundary(line@, cursor as int),
        cursor <= line@.len(),
    ensures
        r as int == back_graphemes(line@, cursor as int, n as nat),
        is_char_boundary(line@, r as int),
        r <= line@.len(),
{
    let mut position: usize = cursor;
    let mut k: usize = 0;
    while k < n && position > 0
        invariant
            valid_utf8(line@),
            is_char_boundary(line@, position as int),
            position <= line@.len(),
            k <= n,
            position as int == back_graphemes(line@, cursor as int, k as nat),
        decreases n - k,
    {
        match prev_grapheme_boundary(line, position) {
            Some(p) => {
                proof {
                    lemma_prev_gb_is(line@, position as int, p as int);
                }
                position = p;
            },
            None => {
                proof {
                    assert(false);
                }
            },
        }
        k = k + 1;
    }
    proof {
        if k < n {
            lemma_back_stays(line@, cursor as int, k as nat, n as nat);
        }
    }
    position
}

/// Steps the cursor forward over `n` grapheme clusters, clamping at the
/// end of the line.
fn eval_forward_char(line: &Vec<u8>, cursor: usize, n: usize) -> (r: usize)
    requires
        valid_utf8(line@),
        is_char_boundary(line@, cursor as int),
        cursor <= line@.len(),
    ensures
        r as int == fwd_graphemes(line@, cursor as int, n as nat),
        is_char_boundary(line@, r as int),
        r <= line@.len(),
{
    let mut position: usize = cursor;
    let mut k: usize = 0;
    while k < n && position < line.len()
        invariant
            valid_utf8(line@),
            is_char_boundary(line@, position as int),
            position <= line@.len(),
            k <= n,
            position as int == fwd_graphemes(line@, cursor as int, k as nat),
        decreases n - k,
    {
        match next_grapheme_boundary(line, position) {
            Some(p) => {
                proof {
                    lemma_next_gb_is(line@, position as int, p as int);
                }
                position = p;
            },
            None => {
                proof {
                    assert(false);
                }
            },
        }
        k = k + 1;
    }
    proof {
        if k < n {
            lemma_fwd_stays(line@, cursor as int, k as nat, n as nat);
        }
    }
    position
}

/// One backward word-boundary scan from character position `cp > 0`.
fn bw_scan_exec(line: &Vec<u8>, starts: &Vec<usize>, cp: usize) -> (r: usize)
    requires
        valid_utf8(line@),
        to_int_seq(starts@) == char_starts(line@),
        0 < cp < starts@.len(),
    ensures
        r as int == bw_once(line@, to_int_seq(starts@), cp as int),
        r < starts@.len(),
{
    let ghost s = line@;
    let ghost cs = to_int_seq(starts@);
    proof {
        lemma_char_starts_props(s, 0);
    }
    let mut m: usize = cp - 1;
    let mut found: usize = 0;
    let mut done: bool = false;
    while m > 0
        invariant
            valid_utf8(s),
            s == line@,
            cs == to_int_seq(starts@),
            cs == char_starts(s),
            forall|j: int| 0 <= j < cs.len() ==> 0 <= #[trigger] cs[j] < s.len(),
            forall|j: int| 0 <= j < cs.len() ==> is_char_boundary(s, #[trigger] cs[j]),
            0 < cp < cs.len(),
            m <= cp - 1,
            done ==> found as int == bw_scan(s, cs, cp - 2) && found < cs.len(),
            !done ==> bw_scan(s, cs, cp - 2) == bw_scan(s, cs, m - 1) && found == 0,
        decreases m,
    {
        let k = m - 1;
        proof {
            assert(cs[k as int] == starts@[k as int] as int);
        }
        if !done {
            if is_ws_at(line, starts[k]) {
                found = m;
                done = true;
                proof {
                    assert(bw_scan(s, cs, k as int) == k + 1);
                }
            } else {
                proof {
                    assert(bw_scan(s, cs, k as int) == bw_scan(s, cs, k - 1));
                }
            }
        }
        m = m - 1;
    }
    proof {
        if !done {
            assert(bw_scan(s, cs, -1) == 0);
        }
    }
    found
}

/// Moves the cursor backward over `n` words.
fn eval_backward_word(line: &Vec<u8>, cursor: usize, n: usize) -> (r: usize)
    requires
        valid_utf8(line@),
        is_char_boundary(line@, cursor as int),
        cursor <= line@.len(),
    ensures
        r as int == move_target(line@, cursor as int, Movement::BackwardWord(n)),
        is_char_boundary(line@, r as int),
        r <= line@.len(),
{
    let ghost s = line@;
    let starts = char_start_offsets(line);
    let ghost cs = to_int_seq(starts@);
    proof {
        lemma_char_starts_props(s, 0);
    }
    if starts.len() == 0 {
        return cursor;
    }
    let mut cp: usize = match find_start_index(&starts, cursor) {
        Some(k) => k,
        None => starts.len() - 1,
    };
    let ghost cp0 = cp as int;
    let mut rep: usize = 0;
    while rep < n && cp > 0
        invariant
            valid_utf8(s),
            s == line@,
            cs == to_int_seq(starts@),
            cs == char_starts(s),
            0 < cs.len(),
            cp < cs.len(),
            rep <= n,
            bw_steps(s, cs, cp0, n as nat) == bw_steps(s, cs, cp as int, (n - rep) as nat),
        decreases n - rep,
    {
        let next_cp = bw_scan_exec(line, &starts, cp);
        proof {
            assert(bw_steps(s, cs, cp as int, (n - rep) as nat) == bw_steps(
                s,
                cs,
                bw_once(s, cs, cp as int),
                (n - rep - 1) as nat,
            ));
        }
        cp = next_cp;
        rep = rep + 1;
    }
    proof {
        if cp == 0 {
            assert(bw_steps(s, cs, cp as int, (n - rep) as nat) == 0);
        } else {
            assert(rep == n);
            assert(bw_steps(s, cs, cp as int, 0) == cp as int);
        }
        assert(cs[bw_steps(s, cs, cp0, n as nat)] == cs[cp as int]);
    }
    starts[cp]
}

/// Moves the cursor forward over `n` words.
fn eval_forward_word(line: &Vec<u8>, cursor: usize, n: usize) -> (r: usize)
    requires
        valid_utf8(line@),
        is_char_boundary(line@, cursor as int),
        cursor <= line@.len(),
    ensures
        r as int == move_target(line@, cursor as int, Movement::ForwardWord(n)),
        is_char_boundary(line@, r as int),
        r <= line@.len(),
{
    let ghost s = line@;
    let starts = char_start_offsets(line);
    let ghost cs = to_int_seq(starts@);
    proof {
        lemma_char_starts_props(s, 0);
        is_char_boundary_start_end_of_seq(s);
    }
    if starts.len() == 0 {
        return cursor;
    }
    let mut cp: usize = match find_start_index(&starts, cursor) {
        Some(k) => k,
        None => starts.len(),
    };
    let ghost cp0 = cp as int;
    let mut rep: usize = 0;
    while rep < n
        invariant
            valid_utf8(s),
            s == line@,
            cs == to_int_seq(starts@),
            cs == char_starts(s),
            forall|j: int| 0 <= j < cs.len() ==> 0 <= #[trigger] cs[j] < s.len(),
            forall|j: int| 0 <= j < cs.len() ==> is_char_boundary(s, #[trigger] cs[j]),
            0 < cs.len(),
            cp <= cs.len(),
            rep <= n,
            fw_steps(s, cs, cp0, n as nat) == fw_steps(s, cs, cp as int, (n - rep) as nat),
        decreases n - rep,
    {
        let ghost cp_entry = cp as int;
        // skip the current run of non-whitespace characters
        while cp < starts.len() && !is_ws_at(line, starts[cp])
            invariant
                valid_utf8(s),
                s == line@,
                cs == to_int_seq(starts@),
                cs == char_starts(s),
                forall|j: int| 0 <= j < cs.len() ==> 0 <= #[trigger] cs[j] < s.len(),
                forall|j: int| 0 <= j < cs.len() ==> is_char_boundary(s, #[trigger] cs[j]),
                0 <= cp_entry,
                cp_entry <= cp <= cs.len(),
                skip_nonws(s, cs, cp_entry) == skip_nonws(s, cs, cp as int),
            decreases cs.len() - cp,
        {
            proof {
                assert(skip_nonws(s, cs, cp as int) == skip_nonws(s, cs, cp + 1));
            }
            cp = cp + 1;
        }
        proof {
            assert(skip_nonws(s, cs, cp as int) == cp as int);
        }
        let ghost cp_mid = cp as int;
        // then skip the following run of whitespace characters
        while cp < starts.len() && is_ws_at(line, starts[cp])
            invariant
                valid_utf8(s),
                s == line@,
                cs == to_int_seq(starts@),
                cs == char_starts(s),
                forall|j: int| 0 <= j < cs.len() ==> 0 <= #[trigger] cs[j] < s.len(),
                forall|j: int| 0 <= j < cs.len() ==> is_char_boundary(s, #[trigger] cs[j]),
                0 <= cp_mid,
                cp_mid <= cp <= cs.len(),
                skip_ws(s, cs, cp_mid) == skip_ws(s, cs, cp as int),
            decreases cs.len() - cp,
        {
            proof {
                assert(skip_ws(s, cs, cp as int) == skip_ws(s, cs, cp + 1));
            }
            cp = cp + 1;
        }
        proof {
            assert(skip_ws(s, cs, cp as int) == cp as int);
            assert(fw_once(s, cs, cp_entry) == cp as int);
            assert(fw_steps(s, cs, cp_entry, (n - rep) as nat) == fw_steps(
                s,
                cs,
                cp as int,
                (n - rep - 1) as nat,
            ));
        }
        rep = rep + 1;
    }
    proof {
        assert(fw_steps(s, cs, cp as int, 0) == cp as int);
    }
    if cp < starts.len() {
        starts[cp]
    } else {
        line.len()
    }
}

/// Character starts appear in strictly increasing byte order.
proof fn lemma_char_starts_increasing(s: Seq<u8>, k1: int, k2: int)
    requires
        valid_utf8(s),
        0 <= k1 <= k2 < char_starts(s).len(),
    ensures
        char_starts(s)[k1] <= char_starts(s)[k2],
    decreases k2 - k1,
{
    let cs = char_starts(s);
    assert(is_char_boundary(s, 0));
    lemma_char_starts_props(s, 0);
    if k1 < k2 {
        lemma_char_starts_increasing(s, k1, k2 - 1);
        assert(cs[k2] == cs[k2 - 1] + scalar_len_at(s, cs[k2 - 1]));
        lemma_boundary_step(s, cs[k2 - 1]);
    }
}

/// Every character boundary before the end of the line is one of the
/// character starts.
proof fn lemma_char_starts_complete(s: Seq<u8>, i: int, b: int)
    requires
        valid_utf8(s),
        is_char_boundary(s, i),
        0 <= i <= s.len(),
        is_char_boundary(s, b),
        i <= b < s.len(),
    ensures
        exists|k: int|
            0 <= k < char_starts_from(s, i).len() && #[trigger] char_starts_from(s, i)[k] == b,
    decreases s.len() - i,
{
    let cs = char_starts_from(s, i);
    lemma_char_starts_props(s, i);
    if b == i {
        assert(cs[0] == b);
    } else {
        lemma_boundary_step(s, i);
        let ln = scalar_len_at(s, i);
        if b < i + ln {
            // inside one character's encoding every byte after the leading
            // byte is a continuation byte, and a boundary byte is not
            lemma_suffix_at_boundary(s, i);
            let suffix = s.subrange(i, s.len() as int);
            assert(valid_first_scalar(suffix));
            assert(suffix[b - i] == s[b]);
            assert(is_continuation_byte(s[b]));
            is_char_boundary_iff_not_is_continuation_byte(s, b);
            assert(false);
        } else {
            lemma_char_starts_complete(s, i + ln, b);
            let tail = char_starts_from(s, i + ln);
            let k0 = choose|k: int| 0 <= k < tail.len() && #[trigger] tail[k] == b;
            assert(cs == seq![i] + tail);
            assert(cs[k0 + 1] == tail[k0]);
        }
    }
}

/// The backward word scan never reaches past the position it starts from.
proof fn lemma_bw_scan_le(s: Seq<u8>, cs: Seq<int>, k: int)
    requires
        -1 <= k < cs.len(),
    ensures
        0 <= bw_scan(s, cs, k) <= k + 1,
    decreases k + 1,
{
    if k >= 0 && !ws_at(s, cs[k]) {
        lemma_bw_scan_le(s, cs, k - 1);
    }
}

/// Backward word steps never move the character position forward.
proof fn lemma_bw_steps_le(s: Seq<u8>, cs: Seq<int>, cp: int, n: nat)
    requires
        0 <= cp < cs.len(),
    ensures
        0 <= bw_steps(s, cs, cp, n) <= cp,
    decreases n,
{
    if n > 0 && cp != 0 {
        lemma_bw_scan_le(s, cs, cp - 2);
        lemma_bw_steps_le(s, cs, bw_once(s, cs, cp), (n - 1) as nat);
    }
}

/// A backward movement never carries the cursor forward.
pub proof fn lemma_backward_movement_le(s: Seq<u8>, cursor: int, movement: Movement)
    requires
        valid_utf8(s),
        is_char_boundary(s, cursor),
        0 <= cursor <= s.len(),
        movement matches Movement::BackwardChar(_) || movement matches Movement::BackwardWord(_),
    ensures
        move_target(s, cursor, movement) <= cursor,
{
    match movement {
        Movement::BackwardChar(n) => {
            lemma_back_graphemes_le(s, cursor, n as nat);
        },
        Movement::BackwardWord(n) => {
            let cs = char_starts(s);
            if cs.len() > 0 {
                assert(is_char_boundary(s, 0));
                lemma_char_starts_props(s, 0);
                lemma_find_idx(cs, cursor);
                let f = find_idx(cs, cursor);
                let cp0 = if f >= 0 {
                    f
                } else {
                    cs.len() - 1
                };
                if f < 0 {
                    // the cursor sits on a boundary; before the end of the
                    // line it would be a character start and would be found
                    if cursor < s.len() {
                        lemma_char_starts_complete(s, 0, cursor);
                        let k = choose|k: int| 0 <= k < cs.len() && #[trigger] cs[k] == cursor;
                        assert(cs[k] != cursor);
                        assert(false);
                    }
                    assert(cs[cp0] < s.len());
                } else {
                    assert(cs[f] == cursor);
                }
                lemma_bw_steps_le(s, cs, cp0, n as nat);
                lemma_char_starts_increasing(s, bw_steps(s, cs, cp0, n as nat), cp0);
            }
        },
        _ => {
        },
    }
}

/// Computes the cursor position a movement leads to, on the given line.
///
/// Never panics and never produces an out-of-bounds or mid-codepoint
/// offset: where no further boundary exists the cursor clamps at the line
/// start or end.  `StartOfLine` is always byte offset `0`; `EndOfLine` is
/// always the full byte length of the line.
pub fn eval_movement(line: &Vec<u8>, cursor: usize, movement: Movement) -> (r: usize)
    requires
        valid_utf8(line@),
        is_char_boundary(line@, cursor as int),
        cursor <= line@.len(),
    ensures
        r as int == move_target(line@, cursor as int, movement),
        is_char_boundary(line@, r as int),
        r <= line@.len(),
        movement == Movement::StartOfLine ==> r == 0,
        movement == Movement::EndOfLine ==> r as int == line@.len(),
{
    match movement {
        Movement::BackwardChar(n) => eval_backward_char(line, cursor, n),
        Movement::ForwardChar(n) => eval_forward_char(line, cursor, n),
        Movement::BackwardWord(n) => eval_backward_word(line, cursor, n),
        Movement::ForwardWord(n) => eval_forward_word(line, cursor, n),
        Movement::StartOfLine => {
            proof {
                assert(is_char_boundary(line@, 0));
            }
            0
        },
        Movement::EndOfLine => {
            proof {
                is_char_boundary_start_end_of_seq(line@);
            }
            line.len()
        },
    }
}

} // verus!
