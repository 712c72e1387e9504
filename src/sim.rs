//! A simulated flash controller: flash contents held in memory, operations
//! that complete at once, and settable faults.
use vstd::prelude::*;

use crate::controller::{
    erase_page_mem, offset_of, program_word, Controller, Flags, FLASH_KEY1, FLASH_KEY2,
    FLASH_SIZE, FLASH_START, PAGE_SIZE,
};

verus! {

/// A controller simulated in memory.
///
/// With `stuck_lock` the lock bit never clears, and the unlock keys set it; with `faulty` every erase
/// reports a write-protection error and every program a programming error,
/// and neither changes the flash; with `silent` no operation raises the
/// end-of-operation flag.
pub struct SimFlash {
    mem: Vec<u8>,
    flags: Flags,
    locked: bool,
    per: bool,
    pg: bool,
    key_seen: bool,
    stuck_lock: bool,
    faulty: bool,
    silent: bool,
    keys: Ghost<Seq<u32>>,
    stores: Ghost<Seq<(usize, u16)>>,
}

impl SimFlash {
    /// A locked, idle controller whose flash holds `fill` everywhere.
    pub fn new(fill: u8) -> (r: SimFlash)
        ensures
            r.mem() == Seq::new(FLASH_SIZE as nat, |i: int| fill),
            r.flags() == (Flags { bsy: false, pgerr: false, wrprt: false, eop: false }),
            r.locked(),
            !r.per(),
            !r.pg(),
            r.faultless(),
            r.accepts_keys(),
            r.keys() == Seq::<u32>::empty(),
    {
        let mut mem: Vec<u8> = Vec::new();
        let mut i: usize = 0;
        while i < FLASH_SIZE
            invariant
                i <= FLASH_SIZE,
                mem@ == Seq::new(i as nat, |j: int| fill),
            decreases FLASH_SIZE - i,
        {
            mem.push(fill);
            i = i + 1;
            assert(mem@ =~= Seq::new(i as nat, |j: int| fill));
        }
        SimFlash {
            mem,
            flags: Flags { bsy: false, pgerr: false, wrprt: false, eop: false },
            locked: true,
            per: false,
            pg: false,
            key_seen: false,
            stuck_lock: false,
            faulty: false,
            silent: false,
            keys: Ghost(Seq::empty()),
            stores: Ghost(Seq::empty()),
        }
    }

    /// Makes the lock bit stay set whatever keys are written.
    pub fn set_stuck_lock(&mut self, stuck: bool)
        ensures
            final(self).mem() == old(self).mem(),
            final(self).flags() == old(self).flags(),
            final(self).locked() == old(self).locked(),
            final(self).faultless() == old(self).faultless(),
            final(self).keys() == old(self).keys(),
            final(self).accepts_keys() == !stuck,
    {
        self.stuck_lock = stuck;
    }

    /// Makes every later erase and program fail, or succeed again.
    pub fn set_faulty(&mut self, faulty: bool)
        ensures
            final(self).mem() == old(self).mem(),
            final(self).flags() == old(self).flags(),
            final(self).locked() == old(self).locked(),
            faulty ==> !final(self).faultless(),
            final(self).keys() == old(self).keys(),
            final(self).accepts_keys() == old(self).accepts_keys(),
    {
        self.faulty = faulty;
    }

    /// Makes later operations end without raising the end-of-operation
    /// flag, or raise it again.
    pub fn set_silent(&mut self, silent: bool)
        ensures
            final(self).mem() == old(self).mem(),
            final(self).flags() == old(self).flags(),
            final(self).locked() == old(self).locked(),
            silent ==> !final(self).faultless(),
            final(self).keys() == old(self).keys(),
            final(self).accepts_keys() == old(self).accepts_keys(),
    {
        self.silent = silent;
    }

    /// Overwrites the status flags.
    pub fn set_flags(&mut self, flags: Flags)
        ensures
            final(self).mem() == old(self).mem(),
            final(self).flags() == flags,
            final(self).locked() == old(self).locked(),
            final(self).faultless() == old(self).faultless(),
            final(self).keys() == old(self).keys(),
            final(self).accepts_keys() == old(self).accepts_keys(),
    {
        self.flags = flags;
    }

    /// The byte at `address`.
    pub fn byte_at(&self, address: usize) -> (r: u8)
        requires
            FLASH_START <= address < FLASH_START + self.mem().len(),
        ensures
            r == self.mem()[offset_of(address as int)],
    {
        self.mem[address - FLASH_START]
    }

    /// Whether the lock bit is set.
    pub fn is_locked(&self) -> (r: bool)
        ensures
            r == self.locked(),
    {
        self.locked
    }
}

impl Controller for SimFlash {
    closed spec fn flags(&self) -> Flags {
        self.flags
    }

    closed spec fn locked(&self) -> bool {
        self.locked
    }

    closed spec fn per(&self) -> bool {
        self.per
    }

    closed spec fn pg(&self) -> bool {
        self.pg
    }

    closed spec fn mem(&self) -> Seq<u8> {
        self.mem@
    }

    closed spec fn faultless(&self) -> bool {
        !self.faulty && !self.silent
    }

    closed spec fn keys(&self) -> Seq<u32> {
        self.keys@
    }

    closed spec fn accepts_keys(&self) -> bool {
        !self.stuck_lock
    }

    closed spec fn stores(&self) -> Seq<(usize, u16)> {
        self.stores@
    }

    closed spec fn key_pending(&self) -> bool {
        self.key_seen
    }

    fn read_flags(&self) -> (r: Flags) {
        self.flags
    }

    fn wait_idle(&mut self) {
        self.flags.bsy = false;
    }

    fn clear_flags(&mut self, pgerr: bool, wrprt: bool, eop: bool) {
        if pgerr {
            self.flags.pgerr = false;
        }
        if wrprt {
            self.flags.wrprt = false;
        }
        if eop {
            self.flags.eop = false;
        }
    }

    fn write_key(&mut self, key: u32) {
        self.keys = Ghost(self.keys@.push(key));
        if key == FLASH_KEY1 {
            self.key_seen = true;
        } else {
            if self.key_seen && key == FLASH_KEY2 {
                self.locked = self.stuck_lock;
            }
            self.key_seen = false;
        }
    }

    fn read_lock(&self) -> (r: bool) {
        self.locked
    }

    fn set_lock(&mut self) {
        self.locked = true;
    }

    fn set_per(&mut self, on: bool) {
        self.per = on;
    }

    fn set_pg(&mut self, on: bool) {
        self.pg = on;
    }

    fn start_erase(&mut self, address: u32) {
        if self.faulty {
            self.flags.wrprt = true;
            self.flags.eop = !self.silent;
            return;
        }
        let first: usize = (address as usize - FLASH_START) / PAGE_SIZE as usize * PAGE_SIZE as usize;
        let ghost page = offset_of(address as int) / PAGE_SIZE as int;
        let ghost m0 = self.mem@;
        assert(first == page * PAGE_SIZE && 0 <= page < 32) by (nonlinear_arith)
            requires
                first == (address - FLASH_START) / 1024 * 1024,
                page == (address - FLASH_START) / 1024,
                0 <= address - FLASH_START < 32768,
        ;
        let mut i: usize = 0;
        while i < PAGE_SIZE as usize
            invariant
                i <= PAGE_SIZE,
                first == page * PAGE_SIZE,
                0 <= page < 32,
                self.mem@.len() == FLASH_SIZE,
                m0.len() == FLASH_SIZE,
                self.locked == old(self).locked,
                self.per == old(self).per,
                self.pg == old(self).pg,
                self.faulty == old(self).faulty,
                self.silent == old(self).silent,
                self.stuck_lock == old(self).stuck_lock,
                self.keys == old(self).keys,
                self.stores == old(self).stores,
                self.flags == old(self).flags,
                forall|j: int|
                    0 <= j < FLASH_SIZE ==> self.mem@[j] == if first <= j < first + i {
                        0xffu8
                    } else {
                        m0[j]
                    },
            decreases PAGE_SIZE - i,
        {
            self.mem.set(first + i, 0xff);
            i = i + 1;
        }
        assert(self.mem@ =~= erase_page_mem(m0, page));
        self.flags.bsy = false;
        self.flags.eop = !self.silent;
    }

    fn program(&mut self, address: usize, word: u16) {
        self.stores = Ghost(self.stores@.push((address, word)));
        if self.faulty {
            self.flags.pgerr = true;
            self.flags.eop = !self.silent;
            return;
        }
        let ghost m0 = self.mem@;
        let off = address - FLASH_START;
        let low = self.mem[off] & (word & 0xff) as u8;
        let high = self.mem[off + 1] & (word >> 8u16) as u8;
        self.mem.set(off, low);
        self.mem.set(off + 1, high);
        assert(self.mem@ =~= program_word(m0, off as int, word));
        self.flags.bsy = false;
        self.flags.eop = !self.silent;
    }

    fn load(&self, address: usize) -> (r: u8) {
        self.mem[address - FLASH_START]
    }
}

} // verus!
