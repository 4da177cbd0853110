//! Tab-completion cycling over host-supplied candidates.
//!
//! When completion starts, the line and cursor are snapshotted once.  Every
//! cycle step replaces the candidate's byte range in a fresh copy of that
//! immutable snapshot, so cycling through the candidates never compounds
//! replacements: the result is a pure function of the snapshot, the
//! candidate list, and the current index.

use crate::text::{is_boundary, lemma_splice_valid, splice_bytes, str_bytes};
use vstd::prelude::*;
use vstd::utf8::*;

verus! {

broadcast use vstd::utf8::encode_utf8_valid_utf8;

/// A byte range `[start, end)` into the line being edited.
#[derive(Debug, Clone, Copy, PartialEq, Eq, Structural)]
pub struct ByteRange {
    pub start: usize,
    pub end: usize,
}

/// One completion proposal: replace `range` of the snapshotted line with
/// `text`.
#[derive(Debug, Clone)]
pub struct CompletionCandidate {
    /// The byte range of the snapshotted line to replace.
    pub range: ByteRange,
    /// The replacement text for that range.
    pub text: String,
}

/// Mathematical model of a candidate: a byte range and the replacement
/// text as UTF-8 bytes.
pub struct CandidateModel {
    pub start: int,
    pub end: int,
    pub text: Seq<u8>,
}

impl View for CompletionCandidate {
    type V = CandidateModel;

    open spec fn view(&self) -> CandidateModel {
        CandidateModel {
            start: self.range.start as int,
            end: self.range.end as int,
            text: encode_utf8(self.text@),
        }
    }
}

/// The snapshotted line with the candidate's range replaced by its text.
pub open spec fn applied_line(line: Seq<u8>, c: CandidateModel) -> Seq<u8> {
    line.subrange(0, c.start) + c.text + line.subrange(c.end, line.len() as int)
}

/// The cursor after applying the candidate: the snapshotted cursor moved
/// by the length difference between the replacement and the range.
pub open spec fn applied_cursor(cursor: int, c: CandidateModel) -> int {
    cursor + c.text.len() - (c.end - c.start)
}

/// True when the candidate can be applied to the snapshot without ever
/// leaving the line or the cursor in an ill-formed state.
pub open spec fn candidate_fits(c: CandidateModel, line: Seq<u8>, cursor: int) -> bool {
    &&& 0 <= c.start <= c.end <= line.len()
    &&& is_char_boundary(line, c.start)
    &&& is_char_boundary(line, c.end)
    &&& valid_utf8(c.text)
    &&& cursor + c.text.len() <= usize::MAX
    &&& c.end - c.start <= cursor + c.text.len()
    &&& is_char_boundary(applied_line(line, c), applied_cursor(cursor, c))
}

/// Mathematical model of the active completion state.
pub struct CompletionModel {
    pub candidates: Seq<CandidateModel>,
    pub index: int,
    pub original_line: Seq<u8>,
    pub original_cursor: int,
}

/// Well-formedness of an active completion: a non-empty candidate list, an
/// in-range index, a well-formed snapshot, and candidates that all fit it.
pub open spec fn completion_wf(m: CompletionModel) -> bool {
    &&& m.candidates.len() > 0
    &&& 0 <= m.index < m.candidates.len()
    &&& valid_utf8(m.original_line)
    &&& 0 <= m.original_cursor <= m.original_line.len()
    &&& is_char_boundary(m.original_line, m.original_cursor)
    &&& forall|i: int|
        0 <= i < m.candidates.len() ==> candidate_fits(
            #[trigger] m.candidates[i],
            m.original_line,
            m.original_cursor,
        )
}

/// The model after one cycle step: the index advances circularly, the
/// snapshot and the candidates stay untouched.
pub open spec fn cycled(m: CompletionModel) -> CompletionModel {
    CompletionModel {
        index: if m.index + 1 >= m.candidates.len() {
            0
        } else {
            m.index + 1
        },
        ..m
    }
}

/// The model after `k` cycle steps.
pub open spec fn cycled_n(m: CompletionModel, k: nat) -> CompletionModel
    decreases k,
{
    if k == 0 {
        m
    } else {
        cycled(cycled_n(m, (k - 1) as nat))
    }
}

/// Completion cycling is a pure function of the snapshot, the candidate
/// list, and the number of steps taken: after `k` cycle steps the state is
/// exactly the activation state at index `(index + k) mod candidates.len()`.
/// No cycle step depends on the line as the previous step left it.
pub proof fn lemma_completion_cycling_pure(m: CompletionModel, k: nat)
    requires
        completion_wf(m),
    ensures
        completion_wf(cycled_n(m, k)),
        cycled_n(m, k).candidates == m.candidates,
        cycled_n(m, k).original_line == m.original_line,
        cycled_n(m, k).original_cursor == m.original_cursor,
        cycled_n(m, k).index == (m.index + k) % (m.candidates.len() as int),
    decreases k,
{
    let n = m.candidates.len() as int;
    if k == 0 {
        assert(m.index % n == m.index) by {
            vstd::arithmetic::div_mod::lemma_small_mod(m.index as nat, n as nat);
        }
    } else {
        lemma_completion_cycling_pure(m, (k - 1) as nat);
        let prev = cycled_n(m, (k - 1) as nat);
        let j = prev.index;
        assert(j == (m.index + k - 1) % n);
        vstd::arithmetic::div_mod::lemma_add_mod_noop(m.index + k - 1, 1, n);
        vstd::arithmetic::div_mod::lemma_small_mod(j as nat, n as nat);
        if n == 1 {
            assert(1int % n == 0) by {
                vstd::arithmetic::div_mod::lemma_mod_self_0(n);
            }
            assert(j == 0);
            assert((m.index + k) % n == (0int + 0int) % n);
            assert(0int % n == 0) by {
                vstd::arithmetic::div_mod::lemma_small_mod(0nat, n as nat);
            }
        } else {
            assert(1int % n == 1) by {
                vstd::arithmetic::div_mod::lemma_small_mod(1nat, n as nat);
            }
            assert((m.index + k) % n == (j + 1) % n);
            if j + 1 >= n {
                assert((j + 1) % n == 0) by {
                    vstd::arithmetic::div_mod::lemma_mod_self_0(n);
                }
            } else {
                assert((j + 1) % n == j + 1) by {
                    vstd::arithmetic::div_mod::lemma_small_mod((j + 1) as nat, n as nat);
                }
            }
        }
    }
}

/// The stateful side of completion cycling: the candidate list, the
/// circular index, and the immutable snapshot of the line and cursor taken
/// at activation.
pub struct CompletionState {
    candidates: Vec<CompletionCandidate>,
    index: usize,
    original_line: Vec<u8>,
    original_cursor: usize,
}

impl View for CompletionState {
    type V = CompletionModel;

    closed spec fn view(&self) -> CompletionModel {
        CompletionModel {
            candidates: self.candidates@.map_values(|c: CompletionCandidate| c@),
            index: self.index as int,
            original_line: self.original_line@,
            original_cursor: self.original_cursor as int,
        }
    }
}

/// Checks that a candidate can be applied to the given snapshot.
pub fn candidate_fits_exec(c: &CompletionCandidate, line: &Vec<u8>, cursor: usize) -> (r: bool)
    requires
        valid_utf8(line@),
        cursor <= line@.len(),
    ensures
        r == candidate_fits(c@, line@, cursor as int),
{
    let text_bytes = str_bytes(c.text.as_str());
    if !(c.range.start <= c.range.end && c.range.end <= line.len()) {
        return false;
    }
    if !is_boundary(line, c.range.start) {
        return false;
    }
    if !is_boundary(line, c.range.end) {
        return false;
    }
    let total = match cursor.checked_add(text_bytes.len()) {
        Some(t) => t,
        None => {
            return false;
        },
    };
    let range_len = c.range.end - c.range.start;
    if range_len > total {
        return false;
    }
    let applied = splice_bytes(line, c.range.start, c.range.end, &text_bytes);
    proof {
        lemma_splice_valid(line@, c@.start, c@.end, c@.text);
    }
    is_boundary(&applied, total - range_len)
}

impl CompletionState {
    /// Activates completion over the given candidates, snapshotting the
    /// line and cursor.  Returns the activated state exactly when the
    /// candidate list is non-empty and every candidate fits the snapshot.
    pub fn new(candidates: Vec<CompletionCandidate>, line: &Vec<u8>, cursor: usize) -> (r: Option<
        CompletionState,
    >)
        requires
            valid_utf8(line@),
            cursor <= line@.len(),
            is_char_boundary(line@, cursor as int),
        ensures
            match r {
                Some(st) => {
                    &&& completion_wf(st@)
                    &&& st@.candidates == candidates@.map_values(|c: CompletionCandidate| c@)
                    &&& st@.index == 0
                    &&& st@.original_line == line@
                    &&& st@.original_cursor == cursor as int
                },
                None => candidates@.len() == 0 || exists|i: int|
                    0 <= i < candidates@.len() && !candidate_fits(
                        #[trigger] candidates@[i]@,
                        line@,
                        cursor as int,
                    ),
            },
    {
        if candidates.len() == 0 {
            return None;
        }
        let mut i: usize = 0;
        while i < candidates.len()
            invariant
                valid_utf8(line@),
                cursor <= line@.len(),
                i <= candidates@.len(),
                forall|j: int|
                    0 <= j < i ==> candidate_fits(
                        #[trigger] candidates@[j]@,
                        line@,
                        cursor as int,
                    ),
            decreases candidates@.len() - i,
        {
            if !candidate_fits_exec(&candidates[i], line, cursor) {
                return None;
            }
            i = i + 1;
        }
        let st = CompletionState {
            candidates,
            index: 0,
            original_line: clone_bytes(line),
            original_cursor: cursor,
        };
        proof {
            assert forall|j: int| 0 <= j < st@.candidates.len() implies candidate_fits(
                #[trigger] st@.candidates[j],
                st@.original_line,
                st@.original_cursor,
            ) by {
                assert(st@.candidates[j] == st.candidates@[j]@);
            }
        }
        Some(st)
    }

    /// Advances the circular index to the next candidate.
    pub fn next(&mut self)
        requires
            completion_wf(old(self)@),
        ensures
            final(self)@ == cycled(old(self)@),
            completion_wf(final(self)@),
    {
        let n = self.candidates.len();
        self.index = self.index + 1;
        if self.index >= n {
            self.index = 0;
        }
    }

    /// Applies the candidate at the current index to a fresh copy of the
    /// snapshot, returning the new cursor and the new line.
    pub fn current(&self) -> (r: (usize, Vec<u8>))
        requires
            completion_wf(self@),
        ensures
            r.0 as int == applied_cursor(self@.original_cursor, self@.candidates[self@.index]),
            r.1@ == applied_line(self@.original_line, self@.candidates[self@.index]),
            valid_utf8(r.1@),
            is_char_boundary(r.1@, r.0 as int),
            r.0 <= r.1@.len(),
    {
        let candidate = &self.candidates[self.index];
        proof {
            assert(self@.candidates[self@.index] == candidate@);
        }
        let text_bytes = str_bytes(candidate.text.as_str());
        let line = splice_bytes(
            &self.original_line,
            candidate.range.start,
            candidate.range.end,
            &text_bytes,
        );
        proof {
            lemma_splice_valid(self.original_line@, candidate@.start, candidate@.end, candidate@.text);
        }
        let range_len = candidate.range.end - candidate.range.start;
        let new_cursor = self.original_cursor + text_bytes.len() - range_len;
        (new_cursor, line)
    }
}

/// A copy of a byte vector.
fn clone_bytes(v: &Vec<u8>) -> (r: Vec<u8>)
    ensures
        r@ == v@,
{
    let mut r: Vec<u8> = Vec::new();
    let mut i: usize = 0;
    while i < v.len()
        invariant
            i <= v@.len(),
            r@ == v@.subrange(0, i as int),
        decreases v@.len() - i,
    {
        r.push(v[i]);
        proof {
            assert(r@ =~= v@.subrange(0, i + 1));
        }
        i = i + 1;
    }
    proof {
        assert(r@ =~= v@);
    }
    r
}

} // verus!
