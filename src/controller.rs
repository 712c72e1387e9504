//! The flash controller as the driver sees it: status flags, control bits,
//! the unlock register, and the memory-mapped flash contents.
use vstd::prelude::*;

verus! {

/// Base address of the flash memory.
pub const FLASH_START: usize = 0x0800_0000;

/// Size of one page in bytes.
pub const PAGE_SIZE: u32 = 1024;

/// Number of pages of the device.
pub const NUM_PAGES: u32 = 32;

/// Size of the whole flash in bytes.
pub const FLASH_SIZE: usize = 32768;

/// First key of the unlock sequence.
pub const FLASH_KEY1: u32 = 0x4567_0123;

/// Second key of the unlock sequence.
pub const FLASH_KEY2: u32 = 0xCDEF_89AB;

/// The status flags of the controller.
#[derive(Clone, Copy, Debug, PartialEq, Eq, Structural)]
pub struct Flags {
    /// An operation is in progress.
    pub bsy: bool,
    /// The last program attempt was rejected.
    pub pgerr: bool,
    /// The last program or erase targeted a write-protected address.
    pub wrprt: bool,
    /// An operation has ended.
    pub eop: bool,
}

impl Flags {
    pub open spec fn has_error(self) -> bool {
        self.pgerr || self.wrprt
    }
}

/// Low byte of a native word.
pub open spec fn lo(w: u16) -> u8 {
    (w & 0xff) as u8
}

/// High byte of a native word.
pub open spec fn hi(w: u16) -> u8 {
    (w >> 8u16) as u8
}

/// The flash contents after programming `data` at byte offset `start`:
/// programming only clears bits, so each targeted byte becomes the bitwise
/// and of its old value and the new one; every other byte keeps its value.
pub open spec fn and_bytes(mem: Seq<u8>, start: int, data: Seq<u8>) -> Seq<u8> {
    Seq::new(
        mem.len(),
        |i: int|
            if start <= i < start + data.len() {
                mem[i] & data[i - start]
            } else {
                mem[i]
            },
    )
}

/// `new` is `old` after some of a program of `data` at `start` took effect:
/// each targeted byte either kept its value or took the programmed one, and
/// every other byte kept its value.
pub open spec fn partly_programmed(old: Seq<u8>, new: Seq<u8>, start: int, data: Seq<u8>) -> bool {
    &&& new.len() == old.len()
    &&& forall|i: int|
        0 <= i < old.len() ==> #[trigger] new[i] == old[i] || (start <= i < start + data.len()
            && new[i] == old[i] & data[i - start])
}

/// The flash contents after programming one native word, little-endian, at
/// byte offset `off`.
pub open spec fn program_word(mem: Seq<u8>, off: int, w: u16) -> Seq<u8> {
    and_bytes(mem, off, seq![lo(w), hi(w)])
}

/// The flash contents after erasing page `page`: its bytes all become `0xff`.
pub open spec fn erase_page_mem(mem: Seq<u8>, page: int) -> Seq<u8> {
    Seq::new(
        mem.len(),
        |i: int|
            if page * PAGE_SIZE <= i < (page + 1) * PAGE_SIZE {
                0xffu8
            } else {
                mem[i]
            },
    )
}

/// Byte offset into the flash of an address.
pub open spec fn offset_of(address: int) -> int {
    address - FLASH_START
}

/// The register block of a flash controller and the flash it drives.
///
/// `mem` is the flash contents, indexed by offset from `FLASH_START`.
/// A controller is `faultless` when it never reports a programming or
/// write-protection error and always signals the end of an operation.
/// `keys` is the log of every word written to the key register, and
/// `accepts_keys` says whether the two unlock keys, written one after the
/// other, clear the lock bit.
///
/// The model lets an erase or a program take effect, and raise its flags,
/// when the command is issued; `wait_idle` then only clears the busy flag.
/// On the chip the flash and the flags change while the controller is busy,
/// so the driver's contracts hold of the state after each wait, which is the
/// only state it reads.
pub trait Controller: Sized {
    spec fn flags(&self) -> Flags;

    spec fn locked(&self) -> bool;

    /// The page-erase-enable control bit.
    spec fn per(&self) -> bool;

    /// The program-enable control bit.
    spec fn pg(&self) -> bool;

    spec fn mem(&self) -> Seq<u8>;

    spec fn faultless(&self) -> bool;

    spec fn keys(&self) -> Seq<u32>;

    spec fn accepts_keys(&self) -> bool;

    /// The log of every native store, with its address and word.
    spec fn stores(&self) -> Seq<(usize, u16)>;

    /// The first unlock key was the last word written to the key register.
    spec fn key_pending(&self) -> bool;

    /// Reads the status register.
    fn read_flags(&self) -> (r: Flags)
        ensures
            r == self.flags(),
    ;

    /// Polls until the busy flag is clear.
    fn wait_idle(&mut self)
        ensures
            final(self).flags() == (Flags { bsy: false, ..old(self).flags() }),
            final(self).locked() == old(self).locked(),
            final(self).per() == old(self).per(),
            final(self).pg() == old(self).pg(),
            final(self).mem() == old(self).mem(),
            final(self).faultless() == old(self).faultless(),
            final(self).keys() == old(self).keys(),
            final(self).stores() == old(self).stores(),
            final(self).accepts_keys() == old(self).accepts_keys(),
    ;

    /// Clears the chosen flags (write one to clear).
    fn clear_flags(&mut self, pgerr: bool, wrprt: bool, eop: bool)
        ensures
            final(self).flags() == (Flags {
                bsy: old(self).flags().bsy,
                pgerr: old(self).flags().pgerr && !pgerr,
                wrprt: old(self).flags().wrprt && !wrprt,
                eop: old(self).flags().eop && !eop,
            }),
            final(self).locked() == old(self).locked(),
            final(self).per() == old(self).per(),
            final(self).pg() == old(self).pg(),
            final(self).mem() == old(self).mem(),
            final(self).faultless() == old(self).faultless(),
            final(self).keys() == old(self).keys(),
            final(self).stores() == old(self).stores(),
            final(self).accepts_keys() == old(self).accepts_keys(),
    ;

    /// Writes one word to the key register; only the lock bit may change.
    /// The second key right after the first clears the lock bit exactly
    /// when the controller accepts the keys.
    fn write_key(&mut self, key: u32)
        ensures
            final(self).flags() == old(self).flags(),
            final(self).per() == old(self).per(),
            final(self).pg() == old(self).pg(),
            final(self).mem() == old(self).mem(),
            final(self).faultless() == old(self).faultless(),
            final(self).keys() == old(self).keys().push(key),
            final(self).stores() == old(self).stores(),
            final(self).accepts_keys() == old(self).accepts_keys(),
            final(self).key_pending() == (key == FLASH_KEY1),
            old(self).key_pending() && key == FLASH_KEY2 ==> final(self).locked()
                == !old(self).accepts_keys(),
    ;

    /// Reads the lock bit.
    fn read_lock(&self) -> (r: bool)
        ensures
            r == self.locked(),
    ;

    /// Sets the lock bit.
    fn set_lock(&mut self)
        ensures
            final(self).locked(),
            final(self).flags() == old(self).flags(),
            final(self).per() == old(self).per(),
            final(self).pg() == old(self).pg(),
            final(self).mem() == old(self).mem(),
            final(self).faultless() == old(self).faultless(),
            final(self).keys() == old(self).keys(),
            final(self).stores() == old(self).stores(),
            final(self).accepts_keys() == old(self).accepts_keys(),
    ;

    /// Sets or clears the page-erase-enable bit.
    fn set_per(&mut self, on: bool)
        ensures
            final(self).per() == on,
            final(self).flags() == old(self).flags(),
            final(self).locked() == old(self).locked(),
            final(self).pg() == old(self).pg(),
            final(self).mem() == old(self).mem(),
            final(self).faultless() == old(self).faultless(),
            final(self).keys() == old(self).keys(),
            final(self).stores() == old(self).stores(),
            final(self).accepts_keys() == old(self).accepts_keys(),
    ;

    /// Sets or clears the program-enable bit.
    fn set_pg(&mut self, on: bool)
        ensures
            final(self).pg() == on,
            final(self).flags() == old(self).flags(),
            final(self).locked() == old(self).locked(),
            final(self).per() == old(self).per(),
            final(self).mem() == old(self).mem(),
            final(self).faultless() == old(self).faultless(),
            final(self).keys() == old(self).keys(),
            final(self).stores() == old(self).stores(),
            final(self).accepts_keys() == old(self).accepts_keys(),
    ;

    /// Loads the address register with `address` and sets the start bit,
    /// with interrupts suppressed.
    fn start_erase(&mut self, address: u32)
        requires
            old(self).per(),
            !old(self).flags().bsy,
            !old(self).flags().has_error(),
            old(self).mem().len() == FLASH_SIZE,
            FLASH_START <= address < FLASH_START + FLASH_SIZE,
        ensures
            final(self).locked() == old(self).locked(),
            final(self).per() == old(self).per(),
            final(self).pg() == old(self).pg(),
            final(self).faultless() == old(self).faultless(),
            final(self).keys() == old(self).keys(),
            final(self).stores() == old(self).stores(),
            final(self).accepts_keys() == old(self).accepts_keys(),
            final(self).mem() == old(self).mem() || final(self).mem() == erase_page_mem(
                old(self).mem(),
                offset_of(address as int) / PAGE_SIZE as int,
            ),
            !final(self).flags().has_error() ==> final(self).mem() == erase_page_mem(
                old(self).mem(),
                offset_of(address as int) / PAGE_SIZE as int,
            ),
            old(self).faultless() ==> !final(self).flags().has_error() && final(self).flags().eop,
    ;

    /// Stores one native word at `address`, with interrupts suppressed.
    fn program(&mut self, address: usize, word: u16)
        requires
            old(self).pg(),
            !old(self).flags().bsy,
            !old(self).flags().has_error(),
            address % 2 == 0,
            FLASH_START <= address,
            address + 2 <= FLASH_START + old(self).mem().len(),
        ensures
            final(self).locked() == old(self).locked(),
            final(self).per() == old(self).per(),
            final(self).pg() == old(self).pg(),
            final(self).faultless() == old(self).faultless(),
            final(self).keys() == old(self).keys(),
            final(self).stores() == old(self).stores().push((address, word)),
            final(self).accepts_keys() == old(self).accepts_keys(),
            final(self).mem() == old(self).mem() || final(self).mem() == program_word(
                old(self).mem(),
                offset_of(address as int),
                word,
            ),
            !final(self).flags().has_error() ==> final(self).mem() == program_word(
                old(self).mem(),
                offset_of(address as int),
                word,
            ),
            old(self).faultless() ==> !final(self).flags().has_error() && final(self).flags().eop,
    ;

    /// Loads one byte from the memory-mapped flash.
    fn load(&self, address: usize) -> (r: u8)
        requires
            FLASH_START <= address < FLASH_START + self.mem().len(),
        ensures
            r == self.mem()[offset_of(address as int)],
    ;
}

} // verus!
