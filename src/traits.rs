use vstd::prelude::*;

use crate::controller::{and_bytes, erase_page_mem, offset_of, partly_programmed, NUM_PAGES};

verus! {

/// A flash page: a region of `PAGE_SIZE` bytes, the unit of erasure.
#[derive(Clone, Copy, Debug, PartialEq, Eq, Structural)]
pub struct FlashPage(pub usize);

/// Flash operation error.
#[derive(Clone, Copy, Debug, PartialEq, Eq, Structural)]
pub enum Error {
    /// The flash controller is not done yet.
    Busy,
    /// Set by hardware when an address to be programmed does not hold an erased value.
    ProgrammingError,
    /// Detected, uncorrectable read error (reserved).
    EccError,
    /// The page index is out of range.
    PageOutOfRange,
    /// A legal command failed (reserved).
    Failure,
    /// The end-of-operation flag did not appear after a wait.
    Eop,
    /// Set by hardware when programming a write-protected address.
    WriteProtectionError,
}

pub type Result = core::result::Result<(), Error>;

/// Reading flash.
pub trait Read {
    /// The unit in which flash is read.
    type NativeType;

    /// Whether `len` units from `address` on lie in the readable flash.
    spec fn readable(&self, address: usize, len: nat) -> bool;

    /// The `len` native units that flash holds from `address` on.
    spec fn native_at(&self, address: usize, len: nat) -> Seq<Self::NativeType>;

    /// The `len` bytes that flash holds from `address` on.
    spec fn bytes_at(&self, address: usize, len: nat) -> Seq<u8>;

    /// Reads from flash in native units.
    fn read_native(&self, address: usize, array: &mut [Self::NativeType])
        requires
            self.readable(address, old(array)@.len()),
        ensures
            final(array)@ == self.native_at(address, old(array)@.len()),
    ;

    /// Reads a buffer of bytes from flash.
    fn read(&self, address: usize, buf: &mut [u8])
        requires
            self.readable(address, old(buf)@.len()),
        ensures
            final(buf)@ == self.bytes_at(address, old(buf)@.len()),
    ;
}

/// Erasing and writing flash.
pub trait WriteErase {
    /// The unit in which flash is programmed.
    type NativeType;

    /// Whether the handle is in a usable state.
    spec fn ready(&self) -> bool;

    /// Whether `len` bytes from `address` on may be written.
    spec fn writable(&self, address: usize, len: nat) -> bool;

    /// Whether `len` native units from `address` on may be programmed.
    spec fn native_writable(&self, address: usize, len: nat) -> bool;

    /// The flash contents, indexed by offset from the start of flash.
    spec fn image(&self) -> Seq<u8>;

    /// The status that the flash reports.
    spec fn reported(&self) -> Result;

    /// The bytes that native units occupy in flash, in order.
    spec fn native_bytes(words: Seq<Self::NativeType>) -> Seq<u8>;

    /// Checks the flash status.
    fn status(&self) -> (r: Result)
        ensures
            r == self.reported(),
    ;

    /// Erases one flash page; a page out of range is refused.
    fn erase_page(&mut self, page: FlashPage) -> (r: Result)
        requires
            old(self).ready(),
        ensures
            final(self).ready(),
            page.0 >= NUM_PAGES ==> r == Err::<(), Error>(Error::PageOutOfRange) && final(self).image() == old(self).image(),
            page.0 < NUM_PAGES && r is Ok ==> final(self).image() == erase_page_mem(
                old(self).image(),
                page.0 as int,
            ),
    ;

    /// The smallest possible write.
    fn write_native(&mut self, address: usize, array: &[Self::NativeType]) -> (r: Result)
        requires
            old(self).ready(),
            old(self).native_writable(address, array@.len()),
        ensures
            final(self).ready(),
            partly_programmed(
                old(self).image(),
                final(self).image(),
                offset_of(address as int),
                Self::native_bytes(array@),
            ),
            r is Ok ==> final(self).image() == and_bytes(
                old(self).image(),
                offset_of(address as int),
                Self::native_bytes(array@),
            ),
    ;

    /// Writes a buffer of bytes through native writes, padding a partial
    /// native unit at either end so that its other bytes are kept.
    fn write(&mut self, address: usize, data: &[u8]) -> (r: Result)
        requires
            old(self).ready(),
            old(self).writable(address, data@.len()),
        ensures
            final(self).ready(),
            partly_programmed(old(self).image(), final(self).image(), offset_of(address as int), data@),
            r is Ok ==> final(self).image() == and_bytes(
                old(self).image(),
                offset_of(address as int),
                data@,
            ),
            data@.len() == 0 ==> r is Ok,
    ;
}

} // verus!
