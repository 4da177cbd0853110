//! Byte-level operations on UTF-8 encoded text.
//!
//! The line being edited is held as a vector of UTF-8 bytes together with a
//! byte cursor.  Everything here is stated against vstd's UTF-8 model:
//! [`valid_utf8`] for well-formedness and [`is_char_boundary`] for cursor
//! alignment.

use vstd::prelude::*;
use vstd::utf8::*;

verus! {

broadcast use vstd::utf8::group_utf8_lib;

/// The byte length of the Unicode scalar whose encoding starts at byte `i`.
pub open spec fn scalar_len_at(s: Seq<u8>, i: int) -> int
    recommends
        0 <= i < s.len(),
{
    length_of_first_scalar(s.subrange(i, s.len() as int))
}

/// The Unicode scalar whose encoding starts at byte `i`.
pub open spec fn scalar_at(s: Seq<u8>, i: int) -> u32
    recommends
        0 <= i < s.len(),
{
    decode_first_scalar(s.subrange(i, s.len() as int))
}

/// True when the scalar is a Unicode whitespace character (the
/// `White_Space` property, the set that `char::is_whitespace` tests).
pub open spec fn is_ws_scalar(v: u32) -> bool {
    ||| (0x09 <= v <= 0x0d)
    ||| v == 0x20
    ||| v == 0x85
    ||| v == 0xa0
    ||| v == 0x1680
    ||| (0x2000 <= v <= 0x200a)
    ||| v == 0x2028
    ||| v == 0x2029
    ||| v == 0x202f
    ||| v == 0x205f
    ||| v == 0x3000
}

/// The suffix of a valid UTF-8 sequence starting at a character boundary is
/// itself valid, and begins with a well-formed scalar when non-empty.
pub proof fn lemma_suffix_at_boundary(s: Seq<u8>, i: int)
    requires
        valid_utf8(s),
        is_char_boundary(s, i),
        0 <= i <= s.len(),
    ensures
        valid_utf8(s.subrange(i, s.len() as int)),
        i < s.len() ==> valid_first_scalar(s.subrange(i, s.len() as int)),
{
    valid_utf8_split(s, i);
}

/// A character boundary followed by that character's full encoding is again
/// a character boundary.
pub proof fn lemma_boundary_step(s: Seq<u8>, i: int)
    requires
        valid_utf8(s),
        is_char_boundary(s, i),
        0 <= i < s.len(),
    ensures
        1 <= scalar_len_at(s, i) <= 4,
        i + scalar_len_at(s, i) <= s.len(),
        is_char_boundary(s, i + scalar_len_at(s, i)),
{
    let suffix = s.subrange(i, s.len() as int);
    lemma_suffix_at_boundary(s, i);
    let k = length_of_first_scalar(suffix);
    assert(1 <= k <= 4);
    assert(k <= suffix.len());
    let rest = pop_first_scalar(suffix);
    assert(rest =~= s.subrange(i + k, s.len() as int));
    if i + k == s.len() {
        is_char_boundary_start_end_of_seq(s);
    } else {
        assert(valid_first_scalar(rest)) by {
            reveal_with_fuel(valid_utf8, 2);
        }
        assert(!is_continuation_byte(rest[0]));
        assert(rest[0] == s[i + k]);
        is_char_boundary_iff_not_is_continuation_byte(s, i + k);
    }
}

/// Exec test for a character boundary, by the leading-byte criterion.
pub fn is_boundary(line: &Vec<u8>, i: usize) -> (r: bool)
    requires
        valid_utf8(line@),
    ensures
        r == is_char_boundary(line@, i as int),
{
    proof {
        is_char_boundary_start_end_of_seq(line@);
    }
    if i > line.len() {
        proof {
            assert(!is_char_boundary(line@, i as int));
        }
        false
    } else if i == 0 || i == line.len() {
        true
    } else {
        proof {
            is_char_boundary_iff_not_is_continuation_byte(line@, i as int);
        }
        let b = line[i];
        !(0x80 <= b && b <= 0xbf)
    }
}

/// Byte length of the scalar starting at boundary `i`, read from its
/// leading byte.
pub fn scalar_len(line: &Vec<u8>, i: usize) -> (r: usize)
    requires
        valid_utf8(line@),
        is_char_boundary(line@, i as int),
        i < line@.len(),
    ensures
        r == scalar_len_at(line@, i as int),
        1 <= r <= 4,
        i + r <= line@.len(),
        is_char_boundary(line@, i + r),
{
    proof {
        lemma_suffix_at_boundary(line@, i as int);
        lemma_boundary_step(line@, i as int);
        assert(line@.subrange(i as int, line@.len() as int)[0] == line@[i as int]);
    }
    let b = line[i];
    if b < 0x80 {
        1
    } else if b < 0xe0 {
        2
    } else if b < 0xf0 {
        3
    } else {
        4
    }
}

/// The scalar value starting at boundary `i`, decoded from its bytes.
pub fn scalar_value(line: &Vec<u8>, i: usize) -> (r: u32)
    requires
        valid_utf8(line@),
        is_char_boundary(line@, i as int),
        i < line@.len(),
    ensures
        r == scalar_at(line@, i as int),
{
    let n = line.len();
    proof {
        lemma_suffix_at_boundary(line@, i as int);
        lemma_boundary_step(line@, i as int);
        assert(i + scalar_len_at(line@, i as int) <= n);
        let suffix = line@.subrange(i as int, line@.len() as int);
        assert forall|k: int| 0 <= k < suffix.len() implies suffix[k] == line@[i + k] by {}
    }
    let b0 = line[i];
    if b0 < 0x80 {
        proof {
            assert(b0 & 0x7f == b0) by (bit_vector)
                requires
                    b0 < 0x80,
            ;
        }
        b0 as u32
    } else if b0 < 0xe0 {
        let b1 = line[i + 1];
        (((b0 & 0x1f) as u32) << 6) | ((b1 & 0x3f) as u32)
    } else if b0 < 0xf0 {
        let b1 = line[i + 1];
        let b2 = line[i + 2];
        (((b0 & 0x0f) as u32) << 12) | (((b1 & 0x3f) as u32) << 6) | ((b2 & 0x3f) as u32)
    } else {
        let b1 = line[i + 1];
        let b2 = line[i + 2];
        let b3 = line[i + 3];
        (((b0 & 0x07) as u32) << 18) | (((b1 & 0x3f) as u32) << 12) | (((b2 & 0x3f) as u32) << 6)
            | ((b3 & 0x3f) as u32)
    }
}

/// True when the scalar starting at boundary `i` is whitespace.
pub fn is_ws_at(line: &Vec<u8>, i: usize) -> (r: bool)
    requires
        valid_utf8(line@),
        is_char_boundary(line@, i as int),
        i < line@.len(),
    ensures
        r == is_ws_scalar(scalar_at(line@, i as int)),
{
    let v = scalar_value(line, i);
    (0x09 <= v && v <= 0x0d) || v == 0x20 || v == 0x85 || v == 0xa0 || v == 0x1680 || (0x2000 <= v
        && v <= 0x200a) || v == 0x2028 || v == 0x2029 || v == 0x202f || v == 0x205f || v == 0x3000
}

/// Replaces the byte range `[start, end)` of `src` with `ins`.
pub fn splice_bytes(src: &Vec<u8>, start: usize, end: usize, ins: &Vec<u8>) -> (r: Vec<u8>)
    requires
        start <= end <= src@.len(),
    ensures
        r@ == src@.subrange(0, start as int) + ins@ + src@.subrange(end as int, src@.len() as int),
{
    let mut out: Vec<u8> = Vec::new();
    let mut i: usize = 0;
    while i < start
        invariant
            i <= start <= end <= src@.len(),
            out@ == src@.subrange(0, i as int),
        decreases start - i,
    {
        out.push(src[i]);
        proof {
            assert(out@ =~= src@.subrange(0, i + 1));
        }
        i = i + 1;
    }
    let mut j: usize = 0;
    while j < ins.len()
        invariant
            start <= end <= src@.len(),
            j <= ins@.len(),
            out@ == src@.subrange(0, start as int) + ins@.subrange(0, j as int),
        decreases ins@.len() - j,
    {
        out.push(ins[j]);
        proof {
            assert(out@ =~= src@.subrange(0, start as int) + ins@.subrange(0, j + 1));
        }
        j = j + 1;
    }
    let mut k: usize = end;
    while k < src.len()
        invariant
            start <= end <= k <= src@.len(),
            out@ == src@.subrange(0, start as int) + ins@ + src@.subrange(end as int, k as int),
        decreases src@.len() - k,
    {
        proof {
            assert(ins@.subrange(0, ins@.len() as int) =~= ins@);
        }
        out.push(src[k]);
        proof {
            assert(out@ =~= src@.subrange(0, start as int) + ins@ + src@.subrange(
                end as int,
                k + 1,
            ));
        }
        k = k + 1;
    }
    proof {
        assert(ins@.subrange(0, ins@.len() as int) =~= ins@);
        assert(out@ =~= src@.subrange(0, start as int) + ins@ + src@.subrange(
            end as int,
            src@.len() as int,
        ));
    }
    out
}

/// Splicing valid UTF-8 between two character boundaries of a valid line
/// yields a valid line, with a boundary at the end of the inserted text.
pub proof fn lemma_splice_valid(s: Seq<u8>, start: int, end: int, ins: Seq<u8>)
    requires
        valid_utf8(s),
        valid_utf8(ins),
        0 <= start <= end <= s.len(),
        is_char_boundary(s, start),
        is_char_boundary(s, end),
    ensures
        valid_utf8(s.subrange(0, start) + ins + s.subrange(end, s.len() as int)),
        is_char_boundary(s.subrange(0, start) + ins + s.subrange(end, s.len() as int), start),
        is_char_boundary(
            s.subrange(0, start) + ins + s.subrange(end, s.len() as int),
            start + ins.len(),
        ),
{
    let pre = s.subrange(0, start);
    let post = s.subrange(end, s.len() as int);
    valid_utf8_split(s, start);
    valid_utf8_split(s, end);
    assert(s.subrange(end, s.len() as int) =~= s.subrange(start, s.len() as int).subrange(
        end - start,
        s.len() - start,
    ));
    assert(valid_utf8(post)) by {
        lemma_suffix_at_boundary(s, end);
    }
    valid_utf8_concat(pre, ins);
    valid_utf8_concat(pre + ins, post);
    lemma_boundary_at_join(pre + ins, post);
    assert((pre + ins).len() == start + ins.len());
    lemma_boundary_at_join(pre, ins + post);
    assert(pre + (ins + post) =~= (pre + ins) + post);
}

/// The junction of two valid UTF-8 sequences is a character boundary of
/// their concatenation.
pub proof fn lemma_boundary_at_join(a: Seq<u8>, b: Seq<u8>)
    requires
        valid_utf8(a),
        valid_utf8(b),
    ensures
        valid_utf8(a + b),
        is_char_boundary(a + b, a.len() as int),
{
    valid_utf8_concat(a, b);
    if b.len() == 0 {
        assert((a + b).len() == a.len());
        is_char_boundary_start_end_of_seq(a + b);
    } else {
        assert(valid_first_scalar(b));
        assert(!is_continuation_byte(b[0]));
        assert((a + b)[a.len() as int] == b[0]);
        is_char_boundary_iff_not_is_continuation_byte(a + b, a.len() as int);
    }
}

/// Turns a string slice into its UTF-8 bytes, as an owned vector.
pub fn str_bytes(s: &str) -> (r: Vec<u8>)
    ensures
        r@ == encode_utf8(s@),
        valid_utf8(r@),
{
    let b = s.as_bytes();
    vstd::slice::slice_to_vec(b)
}

/// The UTF-8 encoding of one character, as an owned vector.
pub fn encode_char_bytes(c: char) -> (r: Vec<u8>)
    ensures
        r@ == encode_scalar(c as u32),
        valid_utf8(r@),
        1 <= r@.len() <= 4,
{
    proof {
        char_is_scalar(c);
    }
    let v = c as u32;
    let mut out: Vec<u8> = Vec::new();
    if v <= 0x7f {
        out.push((v & 0x7f) as u8);
        proof {
            assert(out@ =~= seq![leading_byte_width_1(v)]);
        }
    } else if v <= 0x7ff {
        out.push(0xc0 | (((v >> 6) & 0x1f) as u8));
        out.push(0x80 | ((v & 0x3f) as u8));
        proof {
            assert(out@ =~= seq![leading_byte_width_2(v), last_continuation_byte(v)]);
        }
    } else if v <= 0xffff {
        out.push(0xe0 | (((v >> 12) & 0x0f) as u8));
        out.push(0x80 | (((v >> 6) & 0x3f) as u8));
        out.push(0x80 | ((v & 0x3f) as u8));
        proof {
            assert(out@ =~= seq![
                leading_byte_width_3(v),
                second_last_continuation_byte(v),
                last_continuation_byte(v),
            ]);
        }
    } else {
        out.push(0xf0 | (((v >> 18) & 0x7) as u8));
        out.push(0x80 | (((v >> 12) & 0x3f) as u8));
        out.push(0x80 | (((v >> 6) & 0x3f) as u8));
        out.push(0x80 | ((v & 0x3f) as u8));
        proof {
            assert(out@ =~= seq![
                leading_byte_width_4(v),
                third_last_continuation_byte(v),
                second_last_continuation_byte(v),
                last_continuation_byte(v),
            ]);
        }
    }
    proof {
        let cs = seq![c];
        encode_utf8_valid_utf8(cs);
        assert(encode_utf8(cs) =~= encode_scalar(cs[0] as u32) + encode_utf8(cs.drop_first()));
        assert(encode_utf8(cs.drop_first()) =~= Seq::<u8>::empty()) by {
            assert(cs.drop_first() =~= Seq::<char>::empty());
        }
        assert(encode_utf8(cs) =~= encode_scalar(c as u32));
        assert(valid_utf8(out@));
    }
    out
}

/// Relies on `String::from_utf8`: on valid UTF-8 bytes it returns the
/// string holding exactly those bytes.
#[verifier::external_body]
pub(crate) fn bytes_to_string(v: &Vec<u8>) -> (r: String)
    requires
        valid_utf8(v@),
    ensures
        r@ == decode_utf8(v@),
{
    match String::from_utf8(v.clone()) {
        Ok(s) => s,
        Err(_) => String::new(),
    }
}

} // verus!
