use mem_bench::child::{fork_role, received_address, ForkRole};
use mem_bench::fault::{Backing, FileSource, HugeFileError, Mapping};
use mem_bench::fill::{fill_pattern, FILL_BYTE};
use mem_bench::mapping::{mapped_at, MapRequest, NO_FD};
use mem_bench::memfd::{memfd_name, MemfdError, MemfdStep};
use mem_bench::sys::offset_of;
use mem_bench::transfer::{Chunk, Countdown, Transfer, TransferError};
use mem_bench::PageSize;

#[test]
fn anonymous_mappings() {
    let request = MapRequest::anonymous(4096, PageSize::Standard);
    assert_eq!(request, MapRequest { len: 4096, prot: 3, flags: 0x22, fd: -1, offset: 0 });
    assert_eq!(request.prot, libc::PROT_READ | libc::PROT_WRITE);
    assert_eq!(request.flags, libc::MAP_ANONYMOUS | libc::MAP_PRIVATE);
    let request = MapRequest::anonymous(1 << 21, PageSize::Huge);
    assert_eq!(request, MapRequest { len: 1 << 21, prot: 3, flags: 0x40022, fd: -1, offset: 0 });
    assert_eq!(request.flags, libc::MAP_ANONYMOUS | libc::MAP_PRIVATE | libc::MAP_HUGETLB);
    assert_eq!(NO_FD, -1);
}

#[test]
fn file_mappings() {
    assert_eq!(
        MapRequest::private_file(8192, 5),
        MapRequest { len: 8192, prot: 3, flags: libc::MAP_PRIVATE, fd: 5, offset: 0 },
    );
    assert_eq!(
        MapRequest::shared_file(8192, 6),
        MapRequest { len: 8192, prot: 3, flags: libc::MAP_SHARED, fd: 6, offset: 0 },
    );
    assert_eq!(MapRequest::private_file(1, 1).flags, 2);
    assert_eq!(MapRequest::shared_file(1, 1).flags, 1);
}

#[test]
fn the_address_of_a_mapping() {
    assert_eq!(mapped_at(0x7f00_0000_0000), Some(0x7f00_0000_0000));
    assert_eq!(mapped_at(0), Some(0));
    assert_eq!(mapped_at(libc::MAP_FAILED as usize), None);
    assert_eq!(mapped_at(usize::MAX), None);
    assert_eq!(mapped_at(usize::MAX - 1), Some(usize::MAX - 1));
}

#[test]
fn offsets_are_cast() {
    assert_eq!(offset_of(0), 0);
    assert_eq!(offset_of(30 << 30), 32212254720);
    assert_eq!(offset_of(i64::MAX as usize), i64::MAX);
    assert_eq!(offset_of(i64::MAX as usize + 1), i64::MIN);
    assert_eq!(offset_of(usize::MAX), -1);
}

#[test]
fn memory_file_steps() {
    assert_eq!(memfd_name(), "bench");
    let first = MemfdStep::first(4096, PageSize::Standard);
    assert_eq!(first, MemfdStep::Create { flags: 0, len: 4096 });
    let second = first.next(7);
    assert_eq!(second, MemfdStep::Resize { fd: 7, len: 4096 });
    let third = second.next(0);
    assert_eq!(third, MemfdStep::Ready { fd: 7 });
    assert_eq!(third.next(-1), third);
    assert_eq!(
        MemfdStep::first(1 << 21, PageSize::Huge),
        MemfdStep::Create { flags: libc::MFD_HUGETLB, len: 1 << 21 },
    );
    assert_eq!(
        MemfdStep::first(1 << 21, PageSize::Huge),
        MemfdStep::Create { flags: 4, len: 1 << 21 },
    );
}

#[test]
fn memory_file_failures() {
    let first = MemfdStep::first(4096, PageSize::Standard);
    let failed = MemfdStep::Failed { error: MemfdError::Create };
    assert_eq!(first.next(-1), failed);
    assert_eq!(failed.next(0), failed);
    assert_eq!(first.next(0), MemfdStep::Resize { fd: 0, len: 4096 });
    assert_eq!(first.next(3).next(-1), MemfdStep::Failed { error: MemfdError::Resize });
    assert_eq!(first.next(3).next(1), MemfdStep::Failed { error: MemfdError::Resize });
}

#[test]
fn fill_pattern_is_not_zero() {
    let mut bytes = [0u8; 37];
    fill_pattern(&mut bytes);
    assert_eq!(bytes, [0xab; 37]);
    assert_eq!(FILL_BYTE, 0xab);
    let mut none: [u8; 0] = [];
    fill_pattern(&mut none);
    assert_eq!(none.len(), 0);
}

#[test]
fn mapping_of_each_backing() {
    let anonymous = Mapping::new(4096, Backing::Anonymous, PageSize::Huge).unwrap();
    assert_eq!(anonymous.source(), FileSource::NoFile);
    assert_eq!(anonymous.request(9), MapRequest::anonymous(4096, PageSize::Huge));
    assert!(!anonymous.closes_fd());

    let file = Mapping::new(4096, Backing::File, PageSize::Standard).unwrap();
    assert_eq!(file.source(), FileSource::TempFile { size: 4096 });
    assert_eq!(file.request(9), MapRequest::private_file(4096, 9));
    assert!(!file.closes_fd());

    let memfd = Mapping::new(1 << 21, Backing::Memfd, PageSize::Huge).unwrap();
    assert_eq!(
        memfd.source(),
        FileSource::MemFile { first: MemfdStep::Create { flags: libc::MFD_HUGETLB, len: 1 << 21 } },
    );
    assert_eq!(memfd.request(9), MapRequest::private_file(1 << 21, 9));
    assert!(memfd.closes_fd());
}

#[test]
fn a_file_has_no_huge_pages() {
    assert_eq!(Mapping::new(4096, Backing::File, PageSize::Huge), Err(HugeFileError));
    assert!(Mapping::new(4096, Backing::Memfd, PageSize::Standard).is_ok());
    assert!(Mapping::new(4096, Backing::Anonymous, PageSize::Standard).is_ok());
}

#[test]
fn a_transfer_in_parts() {
    let mut transfer = Transfer::new(100);
    let mut parts: Vec<(usize, usize)> = vec![];
    for moved in [60isize, 1, 39] {
        let chunk = transfer.next_chunk().unwrap();
        assert_eq!(chunk.offset + chunk.len, 100);
        assert_eq!(transfer.advance(moved), Ok(()));
        parts.push((chunk.offset, moved as usize));
    }
    assert_eq!(parts, vec![(0, 60), (60, 1), (61, 39)]);
    assert_eq!(transfer.next_chunk(), None);
    assert_eq!(transfer, Transfer { size: 100, done: 100 });
}

#[test]
fn a_transfer_that_fails() {
    let mut transfer = Transfer::new(100);
    assert_eq!(transfer.advance(60), Ok(()));
    assert_eq!(transfer.advance(-1), Err(TransferError { done: 60 }));
    assert_eq!(transfer.advance(0), Err(TransferError { done: 60 }));
    assert_eq!(transfer.next_chunk(), Some(Chunk { offset: 60, len: 40 }));
}

#[test]
fn a_transfer_of_nothing() {
    assert_eq!(Transfer::new(0).next_chunk(), None);
    assert_eq!(Countdown::new(0).next_len(), None);
}

#[test]
fn a_transfer_past_its_end_is_complete() {
    let mut transfer = Transfer::new(10);
    assert_eq!(transfer.advance(15), Ok(()));
    assert_eq!(transfer.next_chunk(), None);
}

#[test]
fn a_countdown_agrees_with_a_transfer() {
    let mut countdown = Countdown::new(100);
    let mut transfer = Transfer::new(100);
    for moved in [60isize, 1, 39] {
        assert_eq!(countdown.next_len(), Some(transfer.next_chunk().unwrap().len));
        assert!(countdown.advance(moved));
        assert_eq!(transfer.advance(moved), Ok(()));
        assert_eq!(countdown.left, 100 - transfer.done);
    }
    assert_eq!(countdown.next_len(), None);
}

#[test]
fn a_countdown_that_fails() {
    let mut countdown = Countdown::new(100);
    assert!(!countdown.advance(0));
    assert!(!countdown.advance(-1));
    assert_eq!(countdown.next_len(), Some(100));
}

#[test]
fn what_fork_returned() {
    assert_eq!(fork_role(-1), ForkRole::Failed);
    assert_eq!(fork_role(0), ForkRole::Child);
    assert_eq!(fork_role(4711), ForkRole::Parent { pid: 4711 });
    assert_eq!(fork_role(-2), ForkRole::Unexpected);
}

#[test]
fn the_address_from_the_child() {
    assert_eq!(received_address(8, 0x7f00), Some(0x7f00));
    assert_eq!(received_address(7, 0x7f00), None);
    assert_eq!(received_address(0, 0x7f00), None);
    assert_eq!(received_address(-1, 0x7f00), None);
}
