use io_uring::opcode::{Recv, Send, SendZc, Target};
use io_uring::squeue::{Entry, Flags, SubmissionQueue};
use io_uring::sys;

#[test]
fn operation_codes() {
    assert_eq!(Send::code(), 26);
    assert_eq!(Recv::code(), 27);
    assert_eq!(SendZc::code(), 47);
}

#[test]
fn builder_round_trips_through_push() {
    // construct a descriptor, push it, read the raw slot back: identical
    let built = Send::new(Entry::default())
        .fd(Target::Fd(5))
        .ioprio(2)
        .flags(0x40)
        .buf(0xdead_beef)
        .len(128)
        .dest_addr(0x1234, 16)
        .build()
        .user_data(99);
    let mut q: SubmissionQueue<Entry> = SubmissionQueue::new(4);
    assert_eq!(q.push(&built), Ok(()));
    let back = q.slot_at(0);
    assert_eq!(back, built);
    assert_eq!(back.opcode, 26);
    assert_eq!(back.fd, 5);
    assert_eq!(back.ioprio, 2);
    assert_eq!(back.addr, 0xdead_beef);
    assert_eq!(back.len, 128);
    assert_eq!(back.addr2, 0x1234);
    assert_eq!(back.addr_len, 16);
    assert_eq!(back.user_data, 99);
}

#[test]
fn fixed_target_sets_the_fixed_file_bit() {
    let fixed_bit = Flags::fixed_file().bits();
    let with_fixed = Send::new(Entry::default()).fd(Target::Fixed(3)).build();
    assert_eq!(with_fixed.fd, 3);
    assert_ne!(with_fixed.flags & fixed_bit, 0);
    let with_raw = Send::new(Entry::default()).fd(Target::Fd(3)).build();
    assert_eq!(with_raw.fd, 3);
    assert_eq!(with_raw.flags & fixed_bit, 0);
    // the same tagging applies identically across operation kinds
    let recv_fixed = Recv::new(Entry::default()).fd(Target::Fixed(8)).build();
    assert_ne!(recv_fixed.flags & fixed_bit, 0);
    let zc_fixed = SendZc::new(Entry::default()).fd(Target::Fixed(9)).build();
    assert_ne!(zc_fixed.flags & fixed_bit, 0);
    let zc_raw = SendZc::new(Entry::default()).fd(Target::Fd(9)).build();
    assert_eq!(zc_raw.flags & fixed_bit, 0);
    // a pushed fixed-target descriptor reads back with both the index and
    // the flag bit
    let mut q: SubmissionQueue<Entry> = SubmissionQueue::new(2);
    assert_eq!(q.push(&with_fixed), Ok(()));
    let back = q.slot_at(0);
    assert_eq!(back.fd, 3);
    assert_ne!(back.flags & fixed_bit, 0);
}

#[test]
fn recv_builder_fields() {
    let e = Recv::new(Entry::default())
        .fd(Target::Fd(4))
        .buf(0x1000)
        .len(512)
        .buf_group(7)
        .build();
    assert_eq!(e.opcode, 27);
    assert_eq!(e.fd, 4);
    assert_eq!(e.addr, 0x1000);
    assert_eq!(e.len, 512);
    assert_eq!(e.buf_index, 7);
}

#[test]
fn send_zc_fixed_buffer_tags_the_priority_field() {
    let e = SendZc::new(Entry::default())
        .fd(Target::Fd(6))
        .buf(0x2000)
        .len(64)
        .buf_index(2)
        .dest_addr(0x3000, 28)
        .build();
    assert_eq!(e.opcode, 47);
    assert_eq!(e.buf_index, 2);
    assert_ne!(e.ioprio & sys::IORING_RECVSEND_FIXED_BUF, 0);
    assert_eq!(e.addr2, 0x3000);
    assert_eq!(e.addr_len, 28);
}

#[test]
fn flag_setting_order_does_not_matter() {
    let one_way = Entry::default().flags(Flags::io_link()).flags(Flags::io_async());
    let other_way = Entry::default().flags(Flags::io_async()).flags(Flags::io_link());
    assert_eq!(one_way, other_way);
    assert_eq!(one_way.flags, Flags::io_link().union(Flags::io_async()).bits());
}
