use stm32f0_flash::flash::{decode_status, FlashExt};
use stm32f0_flash::traits::{Read, WriteErase};
use stm32f0_flash::{
    unlock, Error, FlashPage, Flags, SimFlash, UnlockedFlash, FLASH_START, NUM_PAGES, PAGE_SIZE,
};

fn unlocked(fill: u8) -> UnlockedFlash<SimFlash> {
    match unlock(SimFlash::new(fill)) {
        Ok(u) => u,
        Err(_) => panic!("simulated controller did not unlock"),
    }
}

fn image(u: UnlockedFlash<SimFlash>, address: usize, len: usize) -> Vec<u8> {
    let sim = u.lock();
    (0..len).map(|k| sim.byte_at(address + k)).collect()
}

fn read_back(u: &UnlockedFlash<SimFlash>, address: usize, len: usize) -> Vec<u8> {
    let mut buf = vec![0u8; len];
    u.read(address, &mut buf);
    buf
}

#[test]
fn page_address() {
    assert_eq!(FlashPage(0).to_address(), 0x0800_0000);
    assert_eq!(FlashPage(3).to_address(), 0x0800_0C00);
    assert_eq!(FlashPage(31).to_address(), 0x0800_7C00);
}

#[test]
fn erase_every_page_in_range() {
    for p in 0..NUM_PAGES as usize {
        let mut u = unlocked(0x00);
        assert_eq!(u.erase_page(FlashPage(p)), Ok(()));
        let start = FLASH_START + p * PAGE_SIZE as usize;
        assert!(read_back(&u, start, PAGE_SIZE as usize).iter().all(|b| *b == 0xff));
        if p > 0 {
            assert_eq!(read_back(&u, start - 1, 1), vec![0x00]);
        }
        if p + 1 < NUM_PAGES as usize {
            assert_eq!(read_back(&u, start + PAGE_SIZE as usize, 1), vec![0x00]);
        }
    }
}

#[test]
fn erase_out_of_range_is_refused() {
    for p in [NUM_PAGES as usize, 33, 1000] {
        let mut u = unlocked(0x5a);
        assert_eq!(u.erase_page(FlashPage(p)), Err(Error::PageOutOfRange));
        let sim = u.lock();
        assert_eq!(sim.byte_at(FLASH_START), 0x5a);
        assert_eq!(sim.byte_at(FLASH_START + 32767), 0x5a);
    }
}

#[test]
fn erase_then_write_reads_back() {
    let data: Vec<u8> = vec![0x01, 0x23, 0x45, 0x67, 0x89, 0xab, 0xcd];
    for off in 0..6usize {
        for len in 0..data.len() {
            let mut u = unlocked(0x00);
            assert_eq!(u.erase_page(FlashPage(2)), Ok(()));
            let address = FLASH_START + 2 * 1024 + 100 + off;
            assert_eq!(u.write(address, &data[..len]), Ok(()));
            assert_eq!(read_back(&u, address, len), data[..len].to_vec());
        }
    }
}

#[test]
fn unaligned_write_matches_native_write() {
    let data = [0x11u8, 0x22, 0x33, 0x44, 0x55];
    let base = FLASH_START + 64;

    let mut a = unlocked(0xff);
    assert_eq!(a.write(base + 1, &data), Ok(()));

    let mut b = unlocked(0xff);
    let words = [
        u16::from_le_bytes([0xff, 0x11]),
        u16::from_le_bytes([0x22, 0x33]),
        u16::from_le_bytes([0x44, 0x55]),
    ];
    assert_eq!(b.write_native(base, &words), Ok(()));

    assert_eq!(image(a, base - 2, 10), image(b, base - 2, 10));
}

#[test]
fn padding_keeps_erased_neighbours() {
    let base = FLASH_START + 200;
    let mut u = unlocked(0xff);
    assert_eq!(u.write(base + 1, &[0x12]), Ok(()));
    assert_eq!(u.write(base + 4, &[0x34]), Ok(()));
    assert_eq!(
        read_back(&u, base, 6),
        vec![0xff, 0x12, 0xff, 0xff, 0x34, 0xff]
    );
}

#[test]
fn padding_keeps_programmed_neighbours() {
    let base = FLASH_START + 300;
    let mut u = unlocked(0xff);
    assert_eq!(u.write_native(base, &[0x5aa5]), Ok(()));
    assert_eq!(u.write(base + 1, &[0x0f]), Ok(()));
    assert_eq!(read_back(&u, base, 2), vec![0xa5, 0x0a]);
    assert_eq!(u.write(base, &[0xf0]), Ok(()));
    assert_eq!(read_back(&u, base, 2), vec![0xa0, 0x0a]);
}

#[test]
fn status_priority() {
    let f = |bsy, pgerr, wrprt| Flags { bsy, pgerr, wrprt, eop: false };
    assert_eq!(decode_status(f(true, true, false)), Err(Error::Busy));
    assert_eq!(decode_status(f(true, true, true)), Err(Error::Busy));
    assert_eq!(decode_status(f(false, true, true)), Err(Error::ProgrammingError));
    assert_eq!(decode_status(f(false, false, true)), Err(Error::WriteProtectionError));
    assert_eq!(decode_status(f(false, false, false)), Ok(()));
}

#[test]
fn status_through_the_handle() {
    let mut sim = SimFlash::new(0xff);
    sim.set_flags(Flags { bsy: false, pgerr: true, wrprt: true, eop: false });
    let u = match unlock(sim) {
        Ok(u) => u,
        Err(_) => panic!("did not unlock"),
    };
    assert_eq!(u.status(), Err(Error::ProgrammingError));
    assert_eq!(unlocked(0xff).status(), Ok(()));
}

#[test]
fn unlock_with_stuck_lock_gives_controller_back() {
    let mut sim = SimFlash::new(0x77);
    sim.set_stuck_lock(true);
    match unlock(sim) {
        Ok(_) => panic!("unlocked a controller whose lock never clears"),
        Err(back) => {
            assert!(back.is_locked());
            assert_eq!(back.byte_at(FLASH_START + 5), 0x77);
        }
    }
}

#[test]
fn unlock_then_lock() {
    let sim = SimFlash::new(0xff);
    assert!(sim.is_locked());
    let u = match unlock(sim) {
        Ok(u) => u,
        Err(_) => panic!("did not unlock"),
    };
    let sim = u.lock();
    assert!(sim.is_locked());
}

#[test]
fn three_bytes_at_odd_address() {
    let base = FLASH_START;
    let mut u = unlocked(0xff);
    assert_eq!(u.write(base + 1, &[0xAA, 0xBB, 0xCC]), Ok(()));
    assert_eq!(read_back(&u, base, 5), vec![0xff, 0xAA, 0xBB, 0xCC, 0xff]);
}

#[test]
fn empty_write_is_ok() {
    let mut u = unlocked(0x42);
    assert_eq!(u.write(FLASH_START + 1, &[]), Ok(()));
    assert_eq!(u.write(FLASH_START, &[]), Ok(()));
    assert_eq!(read_back(&u, FLASH_START, 2), vec![0x42, 0x42]);
}

#[test]
fn write_at_the_end_of_flash() {
    let mut u = unlocked(0xff);
    let last = FLASH_START + 32768 - 3;
    assert_eq!(u.write(last, &[1, 2, 3]), Ok(()));
    assert_eq!(read_back(&u, last - 1, 4), vec![0xff, 1, 2, 3]);
}

#[test]
fn faulty_program_reports_programming_error() {
    let mut sim = SimFlash::new(0xff);
    sim.set_faulty(true);
    let mut u = match unlock(sim) {
        Ok(u) => u,
        Err(_) => panic!("did not unlock"),
    };
    assert_eq!(u.write(FLASH_START + 10, &[1, 2, 3, 4]), Err(Error::ProgrammingError));
    assert_eq!(u.write_native(FLASH_START, &[0]), Err(Error::ProgrammingError));
    assert_eq!(read_back(&u, FLASH_START, 16), vec![0xff; 16]);
}

#[test]
fn faulty_erase_reports_write_protection() {
    let mut sim = SimFlash::new(0x00);
    sim.set_faulty(true);
    let mut u = match unlock(sim) {
        Ok(u) => u,
        Err(_) => panic!("did not unlock"),
    };
    assert_eq!(u.erase_page(FlashPage(1)), Err(Error::WriteProtectionError));
    assert_eq!(read_back(&u, FLASH_START + 1024, 4), vec![0; 4]);
}

#[test]
fn missing_end_of_operation_reports_eop() {
    let mut sim = SimFlash::new(0x00);
    sim.set_silent(true);
    let mut u = match unlock(sim) {
        Ok(u) => u,
        Err(_) => panic!("did not unlock"),
    };
    assert_eq!(u.erase_page(FlashPage(0)), Err(Error::Eop));
}

#[test]
fn native_words_are_little_endian() {
    let mut u = unlocked(0xff);
    assert_eq!(u.write_native(FLASH_START + 8, &[0x1234, 0xabcd]), Ok(()));
    assert_eq!(read_back(&u, FLASH_START + 8, 4), vec![0x34, 0x12, 0xcd, 0xab]);
}

#[test]
fn through_the_traits() {
    let mut u = match FlashExt::unlock(SimFlash::new(0x00)) {
        Ok(u) => u,
        Err(_) => panic!("did not unlock"),
    };
    assert_eq!(
        <UnlockedFlash<SimFlash> as WriteErase>::erase_page(&mut u, FlashPage(4)),
        Ok(())
    );
    assert_eq!(
        <UnlockedFlash<SimFlash> as WriteErase>::erase_page(&mut u, FlashPage(40)),
        Err(Error::PageOutOfRange)
    );
    let address = FLASH_START + 4 * 1024 + 7;
    assert_eq!(
        <UnlockedFlash<SimFlash> as WriteErase>::write(&mut u, address, &[9, 8, 7]),
        Ok(())
    );
    let mut buf = [0u8; 5];
    <UnlockedFlash<SimFlash> as Read>::read(&u, address - 1, &mut buf);
    assert_eq!(buf, [0xff, 9, 8, 7, 0xff]);
    assert_eq!(<UnlockedFlash<SimFlash> as WriteErase>::status(&u), Ok(()));
}
