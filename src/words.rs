//! Native words and the bytes they are made of.
use vstd::prelude::*;

use crate::controller::{and_bytes, hi, lo, partly_programmed, program_word};

verus! {

/// The bytes of a sequence of native words, each little-endian.
pub open spec fn le_bytes(words: Seq<u16>) -> Seq<u8>
    decreases words.len(),
{
    if words.len() == 0 {
        Seq::empty()
    } else {
        le_bytes(words.drop_last()) + seq![lo(words.last()), hi(words.last())]
    }
}

/// The native word whose low byte is erased and whose high byte is `b`.
pub open spec fn head_word_spec(b: u8) -> u16 {
    (0x00ffu16 | ((b as u16) << 8u16)) as u16
}

/// The native word whose low byte is `b` and whose high byte is erased.
pub open spec fn tail_word_spec(b: u8) -> u16 {
    (0xff00u16 | (b as u16)) as u16
}

/// The native word made of two bytes, little-endian.
pub open spec fn pair_word_spec(b0: u8, b1: u8) -> u16 {
    ((b0 as u16) | ((b1 as u16) << 8u16)) as u16
}

pub fn head_word(b: u8) -> (r: u16)
    ensures
        r == head_word_spec(b),
{
    0x00ffu16 | ((b as u16) << 8u16)
}

pub fn tail_word(b: u8) -> (r: u16)
    ensures
        r == tail_word_spec(b),
{
    0xff00u16 | (b as u16)
}

pub fn pair_word(b0: u8, b1: u8) -> (r: u16)
    ensures
        r == pair_word_spec(b0, b1),
{
    (b0 as u16) | ((b1 as u16) << 8u16)
}

pub proof fn lemma_and_ff(x: u8)
    ensures
        x & 0xffu8 == x,
        0xffu8 & x == x,
{
    assert(x & 0xffu8 == x && 0xffu8 & x == x) by (bit_vector);
}

pub proof fn lemma_pair_word(b0: u8, b1: u8)
    ensures
        lo(pair_word_spec(b0, b1)) == b0,
        hi(pair_word_spec(b0, b1)) == b1,
{
    assert((((b0 as u16) | ((b1 as u16) << 8u16)) & 0xffu16) as u8 == b0) by (bit_vector);
    assert((((b0 as u16) | ((b1 as u16) << 8u16)) >> 8u16) as u8 == b1) by (bit_vector);
}

pub proof fn lemma_head_word_bytes(b: u8)
    ensures
        lo(head_word_spec(b)) == 0xffu8,
        hi(head_word_spec(b)) == b,
{
    assert(((0x00ffu16 | ((b as u16) << 8u16)) & 0xffu16) as u8 == 0xffu8) by (bit_vector);
    assert(((0x00ffu16 | ((b as u16) << 8u16)) >> 8u16) as u8 == b) by (bit_vector);
}

pub proof fn lemma_tail_word_bytes(b: u8)
    ensures
        lo(tail_word_spec(b)) == b,
        hi(tail_word_spec(b)) == 0xffu8,
{
    assert(((0xff00u16 | (b as u16)) & 0xffu16) as u8 == b) by (bit_vector);
    assert(((0xff00u16 | (b as u16)) >> 8u16) as u8 == 0xffu8) by (bit_vector);
}

/// A head word programmed at the aligned offset before `off + 1` acts as
/// programming the single byte at `off + 1`.
pub proof fn lemma_head_word(mem: Seq<u8>, off: int, b: u8)
    requires
        0 <= off,
        off + 2 <= mem.len(),
    ensures
        program_word(mem, off, head_word_spec(b)) == and_bytes(mem, off + 1, seq![b]),
{
    lemma_head_word_bytes(b);
    lemma_and_ff(mem[off]);
    assert(program_word(mem, off, head_word_spec(b)) =~= and_bytes(mem, off + 1, seq![b]));
}

/// A tail word programmed at `off` acts as programming the single byte at `off`.
pub proof fn lemma_tail_word(mem: Seq<u8>, off: int, b: u8)
    requires
        0 <= off,
        off + 2 <= mem.len(),
    ensures
        program_word(mem, off, tail_word_spec(b)) == and_bytes(mem, off, seq![b]),
{
    lemma_tail_word_bytes(b);
    lemma_and_ff(mem[off + 1]);
    assert(program_word(mem, off, tail_word_spec(b)) =~= and_bytes(mem, off, seq![b]));
}

/// Programming two adjacent byte runs one after the other is programming
/// their concatenation.
pub proof fn lemma_and_bytes_concat(mem: Seq<u8>, start: int, d1: Seq<u8>, d2: Seq<u8>)
    ensures
        and_bytes(and_bytes(mem, start, d1), start + d1.len(), d2) == and_bytes(
            mem,
            start,
            d1 + d2,
        ),
{
    assert(and_bytes(and_bytes(mem, start, d1), start + d1.len(), d2) =~= and_bytes(
        mem,
        start,
        d1 + d2,
    ));
}

pub proof fn lemma_le_bytes_push(words: Seq<u16>, i: int)
    requires
        0 <= i < words.len(),
    ensures
        le_bytes(words.take(i + 1)) == le_bytes(words.take(i)) + seq![lo(words[i]), hi(words[i])],
        le_bytes(words.take(i)).len() == 2 * i,
{
    lemma_le_bytes_len(words.take(i));
    assert(words.take(i + 1).drop_last() =~= words.take(i));
}

pub proof fn lemma_le_bytes_single(w: u16)
    ensures
        le_bytes(seq![w]) == seq![lo(w), hi(w)],
{
    assert(seq![w].drop_last() =~= Seq::<u16>::empty());
    assert(le_bytes(Seq::<u16>::empty()) =~= Seq::<u8>::empty());
    assert(le_bytes(seq![w]) =~= seq![lo(w), hi(w)]);
}

pub proof fn lemma_le_bytes_len(words: Seq<u16>)
    ensures
        le_bytes(words).len() == 2 * words.len(),
    decreases words.len(),
{
    if words.len() > 0 {
        lemma_le_bytes_len(words.drop_last());
    }
}

/// The bytes of the first `i` words are the first `2 * i` bytes.
pub proof fn lemma_le_bytes_prefix(words: Seq<u16>, i: int)
    requires
        0 <= i <= words.len(),
    ensures
        le_bytes(words.take(i)) == le_bytes(words).take(2 * i),
    decreases words.len(),
{
    lemma_le_bytes_len(words);
    if i == words.len() {
        assert(words.take(i) =~= words);
        assert(le_bytes(words).take(2 * i) =~= le_bytes(words));
    } else {
        let front = words.drop_last();
        lemma_le_bytes_prefix(front, i);
        lemma_le_bytes_len(front);
        assert(words.take(i) =~= front.take(i));
        assert(le_bytes(words).take(2 * i) =~= le_bytes(front).take(2 * i));
    }
}

/// A program of a prefix of `data` is a partial program of `data`.
pub proof fn lemma_prefix_is_partial(mem: Seq<u8>, start: int, data: Seq<u8>, k: int)
    requires
        0 <= k <= data.len(),
    ensures
        partly_programmed(mem, and_bytes(mem, start, data.take(k)), start, data),
{
}

/// Extends a partial program of `data` by a partial program of a native run
/// `d2` at `s2` that covers bytes of `data` not yet programmed and pads the
/// rest with erased bytes.
pub proof fn lemma_partial_extend(
    mem: Seq<u8>,
    start: int,
    data: Seq<u8>,
    k: int,
    new: Seq<u8>,
    s2: int,
    d2: Seq<u8>,
)
    requires
        0 <= k <= data.len(),
        partly_programmed(and_bytes(mem, start, data.take(k)), new, s2, d2),
        forall|j: int|
            0 <= j < d2.len() ==> {
                &&& !(start <= s2 + j < start + k)
                &&& start <= s2 + j < start + data.len() ==> #[trigger] d2[j] == data[s2 + j
                    - start]
                &&& !(start <= s2 + j < start + data.len()) ==> d2[j] == 0xffu8
            },
    ensures
        partly_programmed(mem, new, start, data),
{
    assert forall|i: int| 0 <= i < mem.len() implies #[trigger] new[i] == mem[i] || (start <= i
        < start + data.len() && new[i] == mem[i] & data[i - start]) by {
        lemma_and_ff(mem[i]);
        let before = and_bytes(mem, start, data.take(k));
        assert(new[i] == before[i] || (s2 <= i < s2 + d2.len() && new[i] == before[i] & d2[i
            - s2]));
        if s2 <= i < s2 + d2.len() {
            assert(d2[i - s2] == d2[i - s2]);
        }
    }
}

/// Both outcomes of a program of `d` at `off`, taking effect or not, are
/// partial programs of `d`.
pub proof fn lemma_done_or_not_is_partial(before: Seq<u8>, off: int, d: Seq<u8>)
    ensures
        partly_programmed(before, before, off, d),
        partly_programmed(before, and_bytes(before, off, d), off, d),
{
    assert(d.take(d.len() as int) =~= d);
    lemma_prefix_is_partial(before, off, d, d.len() as int);
}

/// A partial program of a native run whose bytes outside `d3` are erased
/// bytes is a partial program of `d3`.
pub proof fn lemma_partial_narrow(
    before: Seq<u8>,
    new: Seq<u8>,
    s2: int,
    d2: Seq<u8>,
    s3: int,
    d3: Seq<u8>,
)
    requires
        partly_programmed(before, new, s2, d2),
        forall|j: int|
            0 <= j < d2.len() ==> {
                &&& s3 <= s2 + j < s3 + d3.len() ==> #[trigger] d2[j] == d3[s2 + j - s3]
                &&& !(s3 <= s2 + j < s3 + d3.len()) ==> d2[j] == 0xffu8
            },
    ensures
        partly_programmed(before, new, s3, d3),
{
    assert forall|i: int| 0 <= i < before.len() implies #[trigger] new[i] == before[i] || (s3
        <= i < s3 + d3.len() && new[i] == before[i] & d3[i - s3]) by {
        lemma_and_ff(before[i]);
        if s2 <= i < s2 + d2.len() {
            assert(d2[i - s2] == d2[i - s2]);
        }
    }
}

} // verus!
