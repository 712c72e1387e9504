//! Driver logic for the in-circuit programmable flash of a microcontroller:
//! page erase, unaligned byte writes carried out as native half-word
//! programs, and direct reads, over an abstract flash controller.
use vstd::prelude::*;

pub mod controller;
pub mod flash;
pub mod laws;
pub mod sim;
pub mod traits;
pub mod words;

pub use controller::{Controller, Flags, FLASH_START, NUM_PAGES, PAGE_SIZE};
pub use flash::{unlock, FlashExt, UnlockedFlash};
pub use sim::SimFlash;
pub use traits::{Error, FlashPage, Read, Result, WriteErase};

verus! {

} // verus!
