use xsk_core::os::{MapBits, MapCall, Mapped, OsError};
use xsk_core::umem::mmap::{Mmap, MmapError};

const BITS: MapBits =
    MapBits { prot_read: 0x1, prot_write: 0x2, anonymous: 0x20, private: 0x02, hugetlb: 0x40000 };

#[test]
fn confirm_pointer_offset_is_a_single_byte() {
    assert_eq!(std::mem::size_of::<libc::c_void>(), 1);
}

#[test]
fn the_call_asks_for_private_anonymous_memory() {
    let call = Mmap::call_with(4096, false, &BITS).unwrap();
    assert_eq!(call, MapCall { len: 4096, prot: 0x3, flags: 0x22, fd: -1, offset: 0 });
    let call = Mmap::call_with(1 << 21, true, &BITS).unwrap();
    assert_eq!(call, MapCall { len: 1 << 21, prot: 0x3, flags: 0x40022, fd: -1, offset: 0 });
}

#[test]
fn the_call_uses_the_platforms_bits() {
    let bits = MapBits::platform();
    assert_eq!(bits.prot_read, libc::PROT_READ);
    assert_eq!(bits.prot_write, libc::PROT_WRITE);
    assert_eq!(bits.anonymous, libc::MAP_ANONYMOUS);
    assert_eq!(bits.private, libc::MAP_PRIVATE);
    assert_eq!(bits.hugetlb, libc::MAP_HUGETLB);
    let call = Mmap::call(8192, false).unwrap();
    assert_eq!(call.len, 8192);
    assert_eq!(call.prot, libc::PROT_READ | libc::PROT_WRITE);
    assert_eq!(call.flags, libc::MAP_ANONYMOUS | libc::MAP_PRIVATE);
    assert_eq!((call.fd, call.offset), (-1, 0));
    let call = Mmap::call(8192, true).unwrap();
    assert_eq!(call.flags, libc::MAP_ANONYMOUS | libc::MAP_PRIVATE | libc::MAP_HUGETLB);
    assert_eq!(Mmap::call(usize::MAX, false).unwrap().len, usize::MAX);
}

#[test]
fn a_region_of_no_bytes_is_refused() {
    assert_eq!(Mmap::call(0, false), Err(MmapError::ZeroLength));
    assert_eq!(Mmap::call(0, true), Err(MmapError::ZeroLength));
    assert_eq!(Mmap::call_with(0, false, &BITS), Err(MmapError::ZeroLength));
    // Whatever a mapping call would have said.
    let granted = Mapped { addr: 0x7f00_0000_0000, errno: 0 };
    assert_eq!(Mmap::new(0, false, granted).err(), Some(MmapError::ZeroLength));
    let refused = Mapped { addr: usize::MAX, errno: libc::EINVAL };
    assert_eq!(Mmap::new(0, false, refused).err(), Some(MmapError::ZeroLength));
}

#[test]
fn a_refused_mapping_is_an_error() {
    // More than the machine has.
    let refused = Mapped { addr: libc::MAP_FAILED as usize, errno: libc::ENOMEM };
    let err = Mmap::new(usize::MAX, false, refused).err();
    assert_eq!(err, Some(MmapError::Os(OsError { code: libc::ENOMEM })));
    // No huge pages to be had.
    let refused = Mapped { addr: usize::MAX, errno: libc::EINVAL };
    let err = Mmap::new(1 << 21, true, refused).err();
    assert_eq!(err, Some(MmapError::Os(OsError { code: libc::EINVAL })));
}

#[test]
fn a_granted_mapping_is_a_region() {
    let granted = Mapped { addr: 0x7f00_0000_0000, errno: 0 };
    let region = Mmap::new(4096, false, granted).unwrap();
    assert_eq!(region.addr(), 0x7f00_0000_0000);
    assert_eq!(region.len(), 4096);
    assert!(!region.huge_pages());
    // A stale error number does not matter, nor does a high address.
    let granted = Mapped { addr: usize::MAX - 1, errno: libc::ENOMEM };
    let region = Mmap::new(1 << 21, true, granted).unwrap();
    assert_eq!(region.addr(), usize::MAX - 1);
    assert_eq!(region.len(), 1 << 21);
    assert!(region.huge_pages());
    let copy = region.clone();
    assert_eq!((copy.addr(), copy.len()), (region.addr(), region.len()));
}

#[test]
fn only_the_failure_address_means_failure() {
    assert!(Mapped { addr: usize::MAX, errno: 0 }.has_failed());
    assert!(Mapped { addr: libc::MAP_FAILED as usize, errno: 0 }.has_failed());
    assert!(!Mapped { addr: 0, errno: 0 }.has_failed());
    assert!(!Mapped { addr: 1, errno: libc::ENOMEM }.has_failed());
    assert!(!Mapped { addr: usize::MAX - 1, errno: libc::ENOMEM }.has_failed());
}
