use std::cell::Cell;

use krdmakit_syscall::allocator::{AllocError, Block, VmallocAllocator};
use krdmakit_syscall::connect::{handshake_plan, HandshakeStep, Side};
use krdmakit_syscall::tasks::{RunnerStep, SectionRunner, SECTIONS};

#[test]
fn zero_sized_allocation_is_dangling_and_asks_nothing() {
    let calls = Cell::new(0);
    let r = VmallocAllocator.allocate(0, 16, |_n: u64| {
        calls.set(calls.get() + 1);
        0x1000
    });
    assert_eq!(r, Ok(Block { addr: 16, len: 0 }));
    assert_eq!(calls.get(), 0);
}

#[test]
fn allocation_asks_vmalloc_for_the_size() {
    let asked = Cell::new(0u64);
    let r = VmallocAllocator.allocate(4096, 8, |n: u64| {
        asked.set(n);
        0xffff_c900_0000_0000
    });
    assert_eq!(asked.get(), 4096);
    assert_eq!(r, Ok(Block { addr: 0xffff_c900_0000_0000, len: 4096 }));
}

#[test]
fn null_from_vmalloc_is_an_error() {
    let r = VmallocAllocator.allocate(64, 8, |_n: u64| 0);
    assert_eq!(r, Err(AllocError));
}

#[test]
fn handshake_order() {
    assert_eq!(
        handshake_plan(),
        vec![
            HandshakeStep::ToInit(Side::Client),
            HandshakeStep::ToInit(Side::Server),
            HandshakeStep::InitToRtr(Side::Server),
            HandshakeStep::InitToRtr(Side::Client),
            HandshakeStep::RtrToRts(Side::Client),
        ]
    );
}

#[test]
fn task_runs_ten_sections_then_finishes_with_one() {
    let mut t = SectionRunner::new(3);
    assert_eq!(t.task_idx(), 3);
    for s in 1..=SECTIONS {
        assert_eq!(t.step(), RunnerStep::Section(s));
    }
    assert_eq!(SECTIONS, 10);
    assert_eq!(t.step(), RunnerStep::Finished(1));
    assert_eq!(t.step(), RunnerStep::Finished(1));
}
