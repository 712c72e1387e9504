//! Facts about flash images that tie erase, write, native write and read
//! together.
use vstd::prelude::*;

use crate::controller::{and_bytes, erase_page_mem, FLASH_SIZE, NUM_PAGES, PAGE_SIZE};
use crate::words::{lemma_and_ff, lemma_pair_word, le_bytes, pair_word_spec};

verus! {

/// The bytes that the native path programs for `data` when it starts `lead`
/// bytes past an aligned offset: an erased byte before it when `lead` is one,
/// and an erased byte after it when the run would otherwise end mid-word.
pub open spec fn padded(lead: int, data: Seq<u8>) -> Seq<u8> {
    let front: Seq<u8> = if lead == 1 { seq![0xffu8] } else { Seq::empty() };
    let back: Seq<u8> = if (lead + data.len()) % 2 == 1 { seq![0xffu8] } else { Seq::empty() };
    front + data + back
}

/// Native words decoded from bytes two at a time, little-endian.
pub open spec fn words_le(bytes: Seq<u8>) -> Seq<u16> {
    Seq::new(bytes.len() / 2, |k: int| pair_word_spec(bytes[2 * k], bytes[2 * k + 1]))
}

/// Decoding an even run of bytes into native words and laying those words
/// out again gives the bytes back.
pub proof fn lemma_words_le_round_trip(bytes: Seq<u8>)
    requires
        bytes.len() % 2 == 0,
    ensures
        le_bytes(words_le(bytes)) == bytes,
    decreases bytes.len(),
{
    if bytes.len() > 0 {
        let n = bytes.len() as int;
        let front = bytes.take(n - 2);
        lemma_words_le_round_trip(front);
        assert(words_le(bytes).drop_last() =~= words_le(front));
        lemma_pair_word(bytes[n - 2], bytes[n - 1]);
        assert(le_bytes(words_le(bytes)) =~= bytes);
    }
}

/// Erasing a page and then writing bytes inside it leaves exactly those
/// bytes in the written range, so a read of that range returns them.
pub proof fn lemma_erase_write_read_back(mem: Seq<u8>, page: int, start: int, data: Seq<u8>)
    requires
        mem.len() == FLASH_SIZE,
        0 <= page < NUM_PAGES,
        page * PAGE_SIZE <= start,
        start + data.len() <= (page + 1) * PAGE_SIZE,
    ensures
        and_bytes(erase_page_mem(mem, page), start, data).subrange(start, start + data.len())
            == data,
{
    let img = and_bytes(erase_page_mem(mem, page), start, data);
    assert forall|k: int| 0 <= k < data.len() implies img[start + k] == data[k] by {
        lemma_and_ff(data[k]);
    }
    assert(img.subrange(start, start + data.len()) =~= data);
}

/// Writing bytes from any offset programs the same image as the native path:
/// the bytes padded with erased bytes to whole native words, decoded into
/// words by hand, and programmed from the aligned offset below.
pub proof fn lemma_unaligned_write_is_native_write(mem: Seq<u8>, start: int, data: Seq<u8>)
    requires
        0 <= start,
        start + data.len() <= mem.len(),
    ensures
        padded(start % 2, data).len() % 2 == 0,
        and_bytes(mem, start, data) == and_bytes(
            mem,
            start - start % 2,
            le_bytes(words_le(padded(start % 2, data))),
        ),
{
    let lead = start % 2;
    let p = padded(lead, data);
    lemma_words_le_round_trip(p);
    assert forall|i: int| 0 <= i < mem.len() implies #[trigger] and_bytes(mem, start, data)[i]
        == and_bytes(mem, start - lead, p)[i] by {
        lemma_and_ff(mem[i]);
    }
    assert(and_bytes(mem, start, data) =~= and_bytes(mem, start - lead, p));
}

/// A write changes no byte outside its range: neither the byte image of the
/// write nor the padded native words it is made of touch the other lane of a
/// partly written word, whatever that lane holds.
pub proof fn lemma_write_keeps_neighbours(mem: Seq<u8>, start: int, data: Seq<u8>, i: int)
    requires
        0 <= start,
        start + data.len() <= mem.len(),
        0 <= i < mem.len(),
        !(start <= i < start + data.len()),
    ensures
        and_bytes(mem, start, data)[i] == mem[i],
        and_bytes(mem, start - start % 2, le_bytes(words_le(padded(start % 2, data))))[i]
            == mem[i],
{
    lemma_unaligned_write_is_native_write(mem, start, data);
}

} // verus!
