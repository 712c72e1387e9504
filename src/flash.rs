//! The unlocked flash handle: status, page erase, native and byte writes,
//! and reads.
use vstd::prelude::*;

use crate::controller::{
    and_bytes, erase_page_mem, hi, lo, offset_of, partly_programmed, program_word, Controller, Flags, FLASH_KEY1,
    FLASH_KEY2, FLASH_SIZE, FLASH_START, NUM_PAGES, PAGE_SIZE,
};
use crate::traits::{Error, FlashPage, Read, Result, WriteErase};
use crate::words::{
    head_word, head_word_spec, pair_word_spec, tail_word_spec, lemma_and_bytes_concat, lemma_done_or_not_is_partial, lemma_partial_narrow, lemma_head_word, lemma_head_word_bytes,
    lemma_le_bytes_len, lemma_le_bytes_prefix, lemma_le_bytes_push, lemma_le_bytes_single,
    lemma_pair_word, lemma_partial_extend, lemma_prefix_is_partial, lemma_tail_word,
    lemma_tail_word_bytes, le_bytes, pair_word, tail_word,
};

verus! {

impl FlashPage {
    /// The byte address of the first byte of the page.
    pub fn to_address(&self) -> (r: usize)
        requires
            FLASH_START + self.0 * PAGE_SIZE <= usize::MAX,
        ensures
            r == FLASH_START + self.0 * PAGE_SIZE,
    {
        FLASH_START + self.0 * PAGE_SIZE as usize
    }
}

/// What the status register reports: busy first, then a programming error,
/// then a write-protection error.
pub open spec fn status_of(f: Flags) -> Result {
    if f.bsy {
        Err(Error::Busy)
    } else if f.pgerr {
        Err(Error::ProgrammingError)
    } else if f.wrprt {
        Err(Error::WriteProtectionError)
    } else {
        Ok(())
    }
}

/// Decodes status flags into a result.
pub fn decode_status(f: Flags) -> (r: Result)
    ensures
        r == status_of(f),
{
    if f.bsy {
        return Err(Error::Busy);
    }
    if f.pgerr {
        return Err(Error::ProgrammingError);
    }
    if f.wrprt {
        return Err(Error::WriteProtectionError);
    }
    Ok(())
}

/// `new` is `old` after a byte write of `data` at `start` stopped at a failed
/// native word: the first `k` bytes are programmed, the next `m` bytes, the
/// share of `data` in that word, are partly programmed, and nothing after
/// them is touched.
pub open spec fn failed_at(old: Seq<u8>, new: Seq<u8>, start: int, data: Seq<u8>, k: int, m: int) -> bool {
    &&& 0 <= k
    &&& 1 <= m <= 2
    &&& k + m <= data.len()
    &&& partly_programmed(and_bytes(old, start, data.take(k)), new, start + k, data.subrange(k, k + m))
}

/// The native stores that programming `words` from `address` on makes, in order.
pub open spec fn native_plan(address: usize, words: Seq<u16>) -> Seq<(usize, u16)> {
    Seq::new(words.len(), |k: int| ((address + 2 * k) as usize, words[k]))
}

/// Whether a byte write from `address` starts with a head byte in the high
/// half of a native word.
pub open spec fn head_len(address: int, n: int) -> int {
    if address % 2 == 1 && n > 0 {
        1
    } else {
        0
    }
}

/// The first `count` whole native words of a byte write, after `h` head bytes.
pub open spec fn pair_plan(address: usize, data: Seq<u8>, h: int, count: int) -> Seq<(usize, u16)> {
    Seq::new(
        count as nat,
        |j: int| ((address + h + 2 * j) as usize, pair_word_spec(data[h + 2 * j], data[h + 2 * j + 1])),
    )
}

/// The native stores that a byte write of `data` at `address` makes, in
/// order: a padded head word below an odd address, the whole words, and a
/// padded tail word for a last byte left over.
pub open spec fn write_plan(address: usize, data: Seq<u8>) -> Seq<(usize, u16)> {
    let n = data.len() as int;
    let h = head_len(address as int, n);
    let head = if h == 1 {
        seq![((address - 1) as usize, head_word_spec(data[0]))]
    } else {
        Seq::empty()
    };
    let tail = if (n - h) % 2 == 1 {
        seq![((address + n - 1) as usize, tail_word_spec(data[n - 1]))]
    } else {
        Seq::empty()
    };
    head + pair_plan(address, data, h, (n - h) / 2) + tail
}

/// An error that a completed program or erase can report.
pub open spec fn is_completion_error(e: Error) -> bool {
    e == Error::ProgrammingError || e == Error::WriteProtectionError
}

/// `after` is `c` once an unlock attempt has waited for it to be idle and
/// written the two keys, in order, to its key register.
pub open spec fn unlock_attempted<C: Controller>(c: C, after: C) -> bool {
    &&& after.keys() == c.keys() + seq![FLASH_KEY1, FLASH_KEY2]
    &&& after.flags() == (Flags { bsy: false, ..c.flags() })
    &&& after.mem() == c.mem()
    &&& after.per() == c.per()
    &&& after.pg() == c.pg()
    &&& after.faultless() == c.faultless()
    &&& after.accepts_keys() == c.accepts_keys()
}

/// Tries to unlock the controller: waits while it is busy, writes the two
/// keys, and hands out the unlocked handle only when the lock bit cleared.
/// Otherwise the controller comes back, still locked.
pub fn unlock<C: Controller>(c: C) -> (r: core::result::Result<UnlockedFlash<C>, C>)
    requires
        c.mem().len() == FLASH_SIZE,
    ensures
        r is Ok <==> c.accepts_keys(),
        match r {
            Ok(u) => u.wf() && !u.controller().locked() && unlock_attempted(c, u.controller()),
            Err(l) => l.locked() && unlock_attempted(c, l),
        },
{
    let ghost c0 = c;
    let mut c = c;
    c.wait_idle();
    c.write_key(FLASH_KEY1);
    c.write_key(FLASH_KEY2);
    proof {
        assert(c.keys() =~= c0.keys() + seq![FLASH_KEY1, FLASH_KEY2]);
    }
    if !c.read_lock() {
        Ok(UnlockedFlash { f: c })
    } else {
        Err(c)
    }
}

/// A flash controller that has been unlocked: the only handle through which
/// flash can be erased or written.
pub struct UnlockedFlash<C: Controller> {
    f: C,
}

impl<C: Controller> UnlockedFlash<C> {
    /// The controller that this handle holds.
    pub closed spec fn controller(&self) -> C {
        self.f
    }

    pub open spec fn wf(&self) -> bool {
        self.controller().mem().len() == FLASH_SIZE
    }

    /// The flash contents, indexed by offset from `FLASH_START`.
    pub open spec fn mem(&self) -> Seq<u8> {
        self.controller().mem()
    }

    /// Sets the lock bit and gives the controller back.
    pub fn lock(self) -> (r: C)
        ensures
            r.locked(),
            r.flags() == self.controller().flags(),
            r.mem() == self.controller().mem(),
            r.per() == self.controller().per(),
            r.pg() == self.controller().pg(),
            r.faultless() == self.controller().faultless(),
    {
        let mut f = self.f;
        f.set_lock();
        f
    }

    /// The controller's status: busy, a programming error, a
    /// write-protection error, in that priority, or success.
    pub fn status(&self) -> (r: Result)
        ensures
            r == status_of(self.controller().flags()),
    {
        decode_status(self.f.read_flags())
    }

    /// Clears stale programming and write-protection errors.
    fn clear_errors(&mut self)
        ensures
            final(self).controller().flags() == (Flags { pgerr: false, wrprt: false, ..old(self).controller().flags() }),
            final(self).controller().locked() == old(self).controller().locked(),
            final(self).controller().per() == old(self).controller().per(),
            final(self).controller().pg() == old(self).controller().pg(),
            final(self).controller().mem() == old(self).controller().mem(),
            final(self).controller().faultless() == old(self).controller().faultless(),
            final(self).controller().stores() == old(self).controller().stores(),
            final(self).controller().keys() == old(self).controller().keys(),
    {
        self.f.clear_flags(true, true, false);
    }

    /// Waits until the controller is idle and reports its status.
    fn wait(&mut self) -> (r: Result)
        ensures
            final(self).controller().flags() == (Flags { bsy: false, ..old(self).controller().flags() }),
            final(self).controller().locked() == old(self).controller().locked(),
            final(self).controller().per() == old(self).controller().per(),
            final(self).controller().pg() == old(self).controller().pg(),
            final(self).controller().mem() == old(self).controller().mem(),
            final(self).controller().faultless() == old(self).controller().faultless(),
            final(self).controller().stores() == old(self).controller().stores(),
            final(self).controller().keys() == old(self).controller().keys(),
            r == status_of(final(self).controller().flags()),
            r is Ok <==> !final(self).controller().flags().has_error(),
            r matches Err(e) ==> is_completion_error(e),
    {
        self.f.wait_idle();
        self.status()
    }

    /// Erases one page.
    ///
    /// A page index out of range is refused before the controller is touched.
    /// On success the page reads as all ones.
    pub fn erase_page(&mut self, page: FlashPage) -> (r: Result)
        requires
            old(self).wf(),
        ensures
            final(self).wf(),
            page.0 >= NUM_PAGES ==> r == Err::<(), Error>(Error::PageOutOfRange) && *final(self)
                == *old(self),
            page.0 < NUM_PAGES ==> {
                &&& r is Ok ==> final(self).mem() == erase_page_mem(old(self).mem(), page.0 as int)
                    && !final(self).controller().per()
                &&& r matches Err(e) ==> is_completion_error(e) || e == Error::Eop
                &&& old(self).controller().faultless() ==> r is Ok
                &&& final(self).mem() == old(self).mem() || final(self).mem() == erase_page_mem(
                    old(self).mem(),
                    page.0 as int,
                )
                &&& (r == Err::<(), Error>(Error::Eop)) == final(self).controller().per()
                &&& r != Err::<(), Error>(Error::Eop) ==> r == status_of(
                    final(self).controller().flags(),
                )
                &&& !final(self).controller().flags().eop
                &&& !final(self).controller().flags().bsy
            },
            final(self).controller().locked() == old(self).controller().locked(),
            final(self).controller().pg() == old(self).controller().pg(),
            final(self).controller().faultless() == old(self).controller().faultless(),
    {
        if page.0 >= NUM_PAGES as usize {
            return Err(Error::PageOutOfRange);
        }
        self.f.wait_idle();
        self.clear_errors();

        self.f.set_per(true);
        let address = page.to_address();
        proof {
            assert(offset_of(address as int) / PAGE_SIZE as int == page.0 as int) by (
            nonlinear_arith)
                requires
                    address == FLASH_START + page.0 * PAGE_SIZE,
            ;
        }
        self.f.start_erase(address as u32);
        let result = self.wait();

        let sr = self.f.read_flags();
        if sr.eop {
            self.f.clear_flags(false, false, true);
        } else {
            return Err(Error::Eop);
        }
        self.f.set_per(false);
        result
    }

    /// Programs native words one after the other from `address` on.
    ///
    /// The first error ends the write and is returned; the words before it
    /// stay programmed. On success the program-enable bit is cleared again.
    pub fn write_native(&mut self, address: usize, array: &[u16]) -> (r: Result)
        requires
            old(self).wf(),
            address % 2 == 0,
            FLASH_START <= address,
            address + 2 * array@.len() <= FLASH_START + FLASH_SIZE,
        ensures
            final(self).wf(),
            r is Ok ==> final(self).mem() == and_bytes(
                old(self).mem(),
                offset_of(address as int),
                le_bytes(array@),
            ) && !final(self).controller().pg(),
            partly_programmed(
                old(self).mem(),
                final(self).mem(),
                offset_of(address as int),
                le_bytes(array@),
            ),
            r matches Err(e) ==> is_completion_error(e),
            old(self).controller().faultless() ==> r is Ok,
            array@.len() == 0 ==> r is Ok,
            r is Ok && array@.len() > 0 ==> !final(self).controller().flags().eop,
            r is Ok ==> final(self).controller().stores() == old(self).controller().stores()
                + native_plan(address, array@),
            r is Err ==> final(self).controller().pg() && exists|k: int|
                0 <= k < array@.len() && partly_programmed(
                    and_bytes(
                        old(self).mem(),
                        offset_of(address as int),
                        #[trigger] le_bytes(array@.take(k)),
                    ),
                    final(self).mem(),
                    offset_of(address as int) + 2 * k,
                    seq![lo(array@[k]), hi(array@[k])],
                ) && final(self).controller().stores() == old(self).controller().stores()
                    + native_plan(address, array@.take(k + 1)),
            final(self).controller().locked() == old(self).controller().locked(),
            final(self).controller().per() == old(self).controller().per(),
            final(self).controller().faultless() == old(self).controller().faultless(),
    {
        self.f.wait_idle();
        self.clear_errors();
        self.f.set_pg(true);
        let ghost m0 = self.mem();
        let ghost start = offset_of(address as int);
        let mut i: usize = 0;
        let mut a: usize = address;
        proof {
            assert(native_plan(address, array@.take(0)) =~= Seq::<(usize, u16)>::empty());
            assert(self.f.stores() == old(self).controller().stores());
            assert(old(self).controller().stores() + native_plan(address, array@.take(0))
                =~= self.f.stores());
            assert(le_bytes(array@.take(0)) =~= Seq::<u8>::empty());
            assert(and_bytes(m0, start, Seq::<u8>::empty()) =~= m0);
        }
        while i < array.len()
            invariant
                i <= array@.len(),
                a == address + 2 * i,
                a % 2 == 0,
                FLASH_START <= address,
                address + 2 * array@.len() <= FLASH_START + FLASH_SIZE,
                start == offset_of(address as int),
                m0.len() == FLASH_SIZE,
                m0 == old(self).mem(),
                self.wf(),
                self.f.pg(),
                !self.f.flags().has_error(),
                !self.f.flags().bsy,
                i > 0 ==> !self.f.flags().eop,
                self.f.stores() == old(self).controller().stores() + native_plan(
                    address,
                    array@.take(i as int),
                ),
                self.mem() == and_bytes(m0, start, le_bytes(array@.take(i as int))),
                self.f.locked() == old(self).controller().locked(),
                self.f.per() == old(self).controller().per(),
                self.f.faultless() == old(self).controller().faultless(),
            decreases array@.len() - i,
        {
            let word = array[i];
            proof {
                lemma_le_bytes_push(array@, i as int);
                lemma_and_bytes_concat(
                    m0,
                    start,
                    le_bytes(array@.take(i as int)),
                    seq![lo(word), hi(word)],
                );
                lemma_le_bytes_len(array@);
                lemma_le_bytes_prefix(array@, i as int);
                lemma_le_bytes_prefix(array@, i + 1);
                lemma_prefix_is_partial(m0, start, le_bytes(array@), 2 * i);
                lemma_prefix_is_partial(m0, start, le_bytes(array@), 2 * i + 2);
            }
            let ghost before = self.mem();
            self.f.program(a, word);
            proof {
                assert(native_plan(address, array@.take(i + 1)) =~= native_plan(
                    address,
                    array@.take(i as int),
                ).push((a, word)));
                assert(old(self).controller().stores() + native_plan(address, array@.take(i + 1))
                    =~= (old(self).controller().stores() + native_plan(
                    address,
                    array@.take(i as int),
                )).push((a, word)));
            }
            let res = self.wait();
            match res {
                Ok(()) => {},
                Err(e) => {
                    proof {
                        lemma_done_or_not_is_partial(before, start + 2 * i, seq![lo(word), hi(word)]);
                        assert(partly_programmed(
                            and_bytes(m0, start, le_bytes(array@.take(i as int))),
                            self.mem(),
                            start + 2 * i,
                            seq![lo(array@[i as int]), hi(array@[i as int])],
                        ));
                    }
                    return Err(e);
                },
            }
            let sr = self.f.read_flags();
            if sr.eop {
                self.f.clear_flags(false, false, true);
            }
            i = i + 1;
            a = a + 2;
        }
        proof {
            assert(array@.take(i as int) =~= array@);
            assert(native_plan(address, array@.take(i as int)) =~= native_plan(address, array@));
            lemma_le_bytes_len(array@);
            assert(le_bytes(array@).take(le_bytes(array@).len() as int) =~= le_bytes(array@));
            lemma_prefix_is_partial(m0, start, le_bytes(array@), le_bytes(array@).len() as int);
        }
        self.f.set_pg(false);
        Ok(())
    }

    /// Programs one native word at an aligned address.
    fn write_word(&mut self, address: usize, word: u16) -> (r: Result)
        requires
            old(self).wf(),
            address % 2 == 0,
            FLASH_START <= address,
            address + 2 <= FLASH_START + FLASH_SIZE,
        ensures
            final(self).wf(),
            r is Ok ==> final(self).mem() == program_word(
                old(self).mem(),
                offset_of(address as int),
                word,
            ),
            partly_programmed(
                old(self).mem(),
                final(self).mem(),
                offset_of(address as int),
                seq![lo(word), hi(word)],
            ),
            r is Ok ==> final(self).controller().stores() == old(self).controller().stores().push(
                (address, word),
            ),
            r matches Err(e) ==> is_completion_error(e),
            old(self).controller().faultless() ==> r is Ok,
            final(self).controller().locked() == old(self).controller().locked(),
            final(self).controller().per() == old(self).controller().per(),
            final(self).controller().faultless() == old(self).controller().faultless(),
    {
        let native = vec![word];
        proof {
            lemma_le_bytes_single(word);
            assert(native@ =~= seq![word]);
            assert(native_plan(address, native@) =~= seq![(address, word)]);
        }
        self.write_native(address, native.as_slice())
    }

    /// Writes bytes from any address on.
    ///
    /// A head byte before the first aligned address and a tail byte after the
    /// last full native word are padded with ones, so the other byte of their
    /// native word keeps its content. The first error ends the write and is
    /// returned; what was programmed before it stays.
    #[verifier::rlimit(60)]
    pub fn write(&mut self, address: usize, data: &[u8]) -> (r: Result)
        requires
            old(self).wf(),
            FLASH_START <= address,
            address + data@.len() <= FLASH_START + FLASH_SIZE,
        ensures
            final(self).wf(),
            r is Ok ==> final(self).mem() == and_bytes(
                old(self).mem(),
                offset_of(address as int),
                data@,
            ),
            partly_programmed(old(self).mem(), final(self).mem(), offset_of(address as int), data@),
            r matches Err(e) ==> is_completion_error(e),
            data@.len() == 0 ==> r is Ok && *final(self) == *old(self),
            r is Ok ==> final(self).controller().stores() == old(self).controller().stores()
                + write_plan(address, data@),
            r is Err ==> exists|k: int, m: int|
                #[trigger] failed_at(
                    old(self).mem(),
                    final(self).mem(),
                    offset_of(address as int),
                    data@,
                    k,
                    m,
                ),
            old(self).controller().faultless() ==> r is Ok,
            final(self).controller().locked() == old(self).controller().locked(),
            final(self).controller().per() == old(self).controller().per(),
            final(self).controller().faultless() == old(self).controller().faultless(),
    {
        let n = data.len();
        let ghost m0 = self.mem();
        let ghost start = offset_of(address as int);
        proof {
            assert(data@.take(0) =~= Seq::<u8>::empty());
            assert(and_bytes(m0, start, Seq::<u8>::empty()) =~= m0);
        }
        let ghost s0 = self.f.stores();
        if n == 0 {
            proof {
                assert(write_plan(address, data@) =~= Seq::<(usize, u16)>::empty());
                assert(s0 + Seq::<(usize, u16)>::empty() =~= s0);
            }
            return Ok(());
        }
        let offset = address % 2;
        let head: usize = (2 - offset) % 2;
        let ghost headp: Seq<(usize, u16)> = if head == 1 {
            seq![((address - 1) as usize, head_word_spec(data@[0]))]
        } else {
            Seq::empty()
        };
        proof {
            assert(head as int == head_len(address as int, n as int));
            if head == 0 {
                assert(s0 + headp =~= s0);
            }
        }
        if head > 0 {
            let word = head_word(data[0]);
            proof {
                lemma_head_word_bytes(data[0]);
            }
            match self.write_word(address - offset, word) {
                Ok(()) => {},
                Err(e) => {
                    proof {
                        lemma_partial_extend(
                            m0,
                            start,
                            data@,
                            0,
                            self.mem(),
                            start - 1,
                            seq![lo(word), hi(word)],
                        );
                        lemma_partial_narrow(
                            m0,
                            self.mem(),
                            start - 1,
                            seq![lo(word), hi(word)],
                            start,
                            data@.subrange(0, 1),
                        );
                        assert(failed_at(m0, self.mem(), start, data@, 0, 1));
                    }
                    return Err(e);
                },
            }
            proof {
                assert(s0 + headp =~= s0.push(((address - 1) as usize, head_word_spec(data@[0]))));
                lemma_head_word(m0, start - 1, data[0]);
                assert(data@.take(1) =~= seq![data[0]]);
            }
        }
        let mut i: usize = head;
        while i + 2 <= n
            invariant
                n == data@.len(),
                i <= n,
                (address + i) % 2 == 0,
                FLASH_START <= address,
                address + n <= FLASH_START + FLASH_SIZE,
                start == offset_of(address as int),
                m0.len() == FLASH_SIZE,
                m0 == old(self).mem(),
                self.wf(),
                self.mem() == and_bytes(m0, start, data@.take(i as int)),
                head <= i,
                (i - head) % 2 == 0,
                head as int == head_len(address as int, n as int),
                headp == (if head == 1 {
                    seq![((address - 1) as usize, head_word_spec(data@[0]))]
                } else {
                    Seq::<(usize, u16)>::empty()
                }),
                s0 == old(self).controller().stores(),
                self.f.stores() == s0 + headp + pair_plan(
                    address,
                    data@,
                    head as int,
                    (i - head) / 2,
                ),
                self.f.locked() == old(self).controller().locked(),
                self.f.per() == old(self).controller().per(),
                self.f.faultless() == old(self).controller().faultless(),
            decreases n - i,
        {
            let word = pair_word(data[i], data[i + 1]);
            proof {
                assert(pair_plan(address, data@, head as int, (i + 2 - head) / 2) =~= pair_plan(
                    address,
                    data@,
                    head as int,
                    (i - head) / 2,
                ).push(((address + i) as usize, word)));
                assert(s0 + headp + pair_plan(address, data@, head as int, (i + 2 - head) / 2)
                    =~= (s0 + headp + pair_plan(
                    address,
                    data@,
                    head as int,
                    (i - head) / 2,
                )).push(((address + i) as usize, word)));
            }
            proof {
                lemma_pair_word(data[i as int], data[i + 1]);
            }
            match self.write_word(address + i, word) {
                Ok(()) => {},
                Err(e) => {
                    proof {
                        lemma_partial_extend(
                            m0,
                            start,
                            data@,
                            i as int,
                            self.mem(),
                            start + i,
                            seq![lo(word), hi(word)],
                        );
                        lemma_partial_narrow(
                            and_bytes(m0, start, data@.take(i as int)),
                            self.mem(),
                            start + i,
                            seq![lo(word), hi(word)],
                            start + i,
                            data@.subrange(i as int, i + 2),
                        );
                        assert(failed_at(m0, self.mem(), start, data@, i as int, 2));
                    }
                    return Err(e);
                },
            }
            proof {
                lemma_and_bytes_concat(m0, start, data@.take(i as int), seq![data[i as int], data[i + 1]]);
                assert(data@.take(i + 2) =~= data@.take(i as int) + seq![data[i as int], data[i + 1]]);
            }
            i = i + 2;
        }
        let ghost i0 = i as int;
        let ghost pre = self.f.stores();
        let ghost tailp: Seq<(usize, u16)> = if (n - head) % 2 == 1 {
            seq![((address + n - 1) as usize, tail_word_spec(data@[n - 1]))]
        } else {
            Seq::empty()
        };
        if i < n {
            let word = tail_word(data[i]);
            let ghost before = self.mem();
            proof {
                lemma_tail_word_bytes(data[i as int]);
                assert(i + 1 == n);
            }
            match self.write_word(address + i, word) {
                Ok(()) => {},
                Err(e) => {
                    proof {
                        lemma_partial_extend(
                            m0,
                            start,
                            data@,
                            i as int,
                            self.mem(),
                            start + i,
                            seq![lo(word), hi(word)],
                        );
                        lemma_partial_narrow(
                            and_bytes(m0, start, data@.take(i as int)),
                            self.mem(),
                            start + i,
                            seq![lo(word), hi(word)],
                            start + i,
                            data@.subrange(i as int, i + 1),
                        );
                        assert(failed_at(m0, self.mem(), start, data@, i as int, 1));
                    }
                    return Err(e);
                },
            }
            proof {
                lemma_tail_word(before, start + i, data[i as int]);
                lemma_and_bytes_concat(m0, start, data@.take(i as int), seq![data[i as int]]);
                assert(data@.take(i + 1) =~= data@.take(i as int) + seq![data[i as int]]);
                assert(i + 1 == n);
            }
            i = i + 1;
        }
        proof {
            assert(data@.take(n as int) =~= data@);
            lemma_prefix_is_partial(m0, start, data@, n as int);
            assert((n - head) / 2 == (i0 - head) / 2);
            assert((n - head) % 2 == 1 <==> i0 < n);
            assert(write_plan(address, data@) == headp + pair_plan(
                address,
                data@,
                head as int,
                (i0 - head) / 2,
            ) + tailp);
            assert(self.f.stores() =~= s0 + headp + pair_plan(
                address,
                data@,
                head as int,
                (i0 - head) / 2,
            ) + tailp);
        }
        Ok(())
    }

    /// Copies bytes out of the memory-mapped flash.
    pub fn read_native(&self, address: usize, array: &mut [u8])
        requires
            self.wf(),
            FLASH_START <= address,
            address + old(array)@.len() <= FLASH_START + FLASH_SIZE,
        ensures
            final(array)@ == self.mem().subrange(
                offset_of(address as int),
                offset_of(address as int) + old(array)@.len(),
            ),
    {
        let n = array.len();
        let mut i: usize = 0;
        while i < n
            invariant
                n == array@.len(),
                n == old(array)@.len(),
                i <= n,
                self.wf(),
                FLASH_START <= address,
                address + n <= FLASH_START + FLASH_SIZE,
                forall|j: int| 0 <= j < i ==> array@[j] == self.mem()[offset_of(address as int) + j],
            decreases n - i,
        {
            let b = self.f.load(address + i);
            array[i] = b;
            i = i + 1;
        }
        proof {
            assert(array@ =~= self.mem().subrange(
                offset_of(address as int),
                offset_of(address as int) + n,
            ));
        }
    }

    /// Reads a buffer of bytes from flash.
    pub fn read(&self, address: usize, buf: &mut [u8])
        requires
            self.wf(),
            FLASH_START <= address,
            address + old(buf)@.len() <= FLASH_START + FLASH_SIZE,
        ensures
            final(buf)@ == self.mem().subrange(
                offset_of(address as int),
                offset_of(address as int) + old(buf)@.len(),
            ),
    {
        self.read_native(address, buf);
    }
}

/// Unlocking a flash controller.
pub trait FlashExt: Controller {
    /// Unlocks flash for erasing and writing; on failure the controller
    /// comes back, still locked.
    fn unlock(self) -> (r: core::result::Result<UnlockedFlash<Self>, Self>)
        requires
            self.mem().len() == FLASH_SIZE,
        ensures
            r is Ok <==> self.accepts_keys(),
            match r {
                Ok(u) => u.wf() && !u.controller().locked() && unlock_attempted(self, u.controller()),
                Err(l) => l.locked() && unlock_attempted(self, l),
            },
    ;
}

impl<C: Controller> FlashExt for C {
    fn unlock(self) -> (r: core::result::Result<UnlockedFlash<Self>, Self>) {
        unlock(self)
    }
}

impl<C: Controller> Read for UnlockedFlash<C> {
    type NativeType = u8;

    open spec fn readable(&self, address: usize, len: nat) -> bool {
        self.wf() && FLASH_START <= address && address + len <= FLASH_START + FLASH_SIZE
    }

    open spec fn native_at(&self, address: usize, len: nat) -> Seq<u8> {
        self.mem().subrange(offset_of(address as int), offset_of(address as int) + len)
    }

    open spec fn bytes_at(&self, address: usize, len: nat) -> Seq<u8> {
        self.mem().subrange(offset_of(address as int), offset_of(address as int) + len)
    }

    fn read_native(&self, address: usize, array: &mut [u8]) {
        UnlockedFlash::read_native(self, address, array)
    }

    fn read(&self, address: usize, buf: &mut [u8]) {
        UnlockedFlash::read(self, address, buf)
    }
}

impl<C: Controller> WriteErase for UnlockedFlash<C> {
    type NativeType = u16;

    open spec fn ready(&self) -> bool {
        self.wf()
    }

    open spec fn writable(&self, address: usize, len: nat) -> bool {
        FLASH_START <= address && address + len <= FLASH_START + FLASH_SIZE
    }

    open spec fn native_writable(&self, address: usize, len: nat) -> bool {
        address % 2 == 0 && FLASH_START <= address && address + 2 * len <= FLASH_START
            + FLASH_SIZE
    }

    open spec fn image(&self) -> Seq<u8> {
        self.mem()
    }

    open spec fn reported(&self) -> Result {
        status_of(self.controller().flags())
    }

    open spec fn native_bytes(words: Seq<u16>) -> Seq<u8> {
        le_bytes(words)
    }

    fn status(&self) -> (r: Result) {
        UnlockedFlash::status(self)
    }

    fn erase_page(&mut self, page: FlashPage) -> (r: Result) {
        UnlockedFlash::erase_page(self, page)
    }

    fn write_native(&mut self, address: usize, array: &[u16]) -> (r: Result) {
        UnlockedFlash::write_native(self, address, array)
    }

    fn write(&mut self, address: usize, data: &[u8]) -> (r: Result) {
        UnlockedFlash::write(self, address, data)
    }
}

} // verus!
