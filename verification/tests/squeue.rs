use io_uring::squeue::{Entry, Entry128, EntryMarker, Flags, PushError, SubmissionQueue};
use io_uring::sys;

#[test]
fn test_entry_sizes() {
    assert_eq!(std::mem::size_of::<Entry>(), 64);
    assert_eq!(std::mem::size_of::<Entry128>(), 128);
}

#[test]
fn length_counts_pushes() {
    let mut q: SubmissionQueue<Entry> = SubmissionQueue::new(4);
    assert_eq!(q.capacity(), 4);
    assert!(q.is_empty());
    for i in 0..3u64 {
        let e = Entry::default().user_data(i);
        assert_eq!(q.push(&e), Ok(()));
        assert_eq!(q.len(), (i + 1) as usize);
    }
    assert!(!q.is_full());
}

#[test]
fn push_on_full_fails_and_leaves_state_unchanged() {
    let mut q: SubmissionQueue<Entry> = SubmissionQueue::new(2);
    assert_eq!(q.push(&Entry::default().user_data(1)), Ok(()));
    assert_eq!(q.push(&Entry::default().user_data(2)), Ok(()));
    assert!(q.is_full());
    assert_eq!(q.push(&Entry::default().user_data(3)), Err(PushError));
    assert_eq!(q.len(), 2);
    assert_eq!(q.capacity(), 2);
    // counters unmoved: the two earlier entries are still in their slots
    assert_eq!(q.slot_at(0).get_user_data(), 1);
    assert_eq!(q.slot_at(1).get_user_data(), 2);
}

#[test]
fn push_multiple_is_all_or_nothing() {
    let mut q: SubmissionQueue<Entry> = SubmissionQueue::new(4);
    assert_eq!(q.push(&Entry::default().user_data(1)), Ok(()));
    assert_eq!(q.push(&Entry::default().user_data(2)), Ok(()));
    let batch = [
        Entry::default().user_data(10),
        Entry::default().user_data(11),
        Entry::default().user_data(12),
    ];
    // only two slots remain: the whole batch is refused
    assert_eq!(q.push_multiple(&batch), Err(PushError));
    assert_eq!(q.len(), 2);
    // no entry of the refused batch is visible in the ring
    assert_eq!(q.slot_at(2), Entry::default());
    assert_eq!(q.slot_at(3), Entry::default());
    // a batch that fits goes in whole, in order
    let batch2 = [Entry::default().user_data(20), Entry::default().user_data(21)];
    assert_eq!(q.push_multiple(&batch2), Ok(()));
    assert_eq!(q.len(), 4);
    assert_eq!(q.slot_at(2).get_user_data(), 20);
    assert_eq!(q.slot_at(3).get_user_data(), 21);
}

#[test]
fn sync_zeroes_reclaimed_slots() {
    let mut q: SubmissionQueue<Entry> = SubmissionQueue::new(4);
    for i in 0..4u64 {
        assert_eq!(q.push(&Entry::default().user_data(i + 1)), Ok(()));
    }
    q.sync();
    q.kernel_consume(3);
    q.sync();
    assert_eq!(q.len(), 1);
    // every slot in [old_local_head, new_local_head) is all-zero again
    for pos in 0..3u32 {
        assert_eq!(q.slot_at(pos), Entry::default());
    }
    // the still-pending entry is untouched
    assert_eq!(q.slot_at(3).get_user_data(), 4);
}

#[test]
fn wraparound_three_full_cycles() {
    let mut q: SubmissionQueue<Entry> = SubmissionQueue::new(4);
    let mut tag: u64 = 0;
    for _cycle in 0..3 {
        for _ in 0..4 {
            tag += 1;
            assert_eq!(q.push(&Entry::default().user_data(tag)), Ok(()));
        }
        assert!(q.is_full());
        assert_eq!(q.len(), 4);
        q.sync();
        q.kernel_consume(4);
        q.sync();
        assert_eq!(q.len(), 0);
        assert!(q.is_empty());
    }
    assert_eq!(tag, 12);
    // after 12 pushes and reclaims the wrapped indices still count correctly
    assert_eq!(q.push(&Entry::default().user_data(13)), Ok(()));
    assert_eq!(q.len(), 1);
    assert_eq!(q.slot_at(12).get_user_data(), 13);
}

#[test]
fn full_ring_frees_one_slot_after_sync() {
    let mut q: SubmissionQueue<Entry> = SubmissionQueue::new(2);
    let a = Entry::default().user_data(0xa);
    let b = Entry::default().user_data(0xb);
    let c = Entry::default().user_data(0xc);
    assert_eq!(q.push(&a), Ok(()));
    assert_eq!(q.push(&b), Ok(()));
    assert!(q.is_full());
    assert_eq!(q.push(&c), Err(PushError));
    q.sync();
    q.kernel_consume(1);
    q.sync();
    // the slot A occupied is zeroed and available again
    assert_eq!(q.slot_at(0), Entry::default());
    assert_eq!(q.push(&c), Ok(()));
    assert!(q.is_full());
    // C went into the recycled slot
    assert_eq!(q.slot_at(2).get_user_data(), 0xc);
    assert_eq!(q.slot_at(0).get_user_data(), 0xc);
}

#[test]
fn attach_seeds_from_kernel_visible_counters() {
    // take over a ring whose counters are about to wrap through u32::MAX
    let slots = vec![Entry::default(); 4];
    let mut q: SubmissionQueue<Entry> =
        SubmissionQueue::attach(4, 0xffff_fffe, 0xffff_fffe, 0, 0, slots);
    assert_eq!(q.len(), 0);
    assert_eq!(q.capacity(), 4);
    for i in 0..4u64 {
        assert_eq!(q.push(&Entry::default().user_data(i + 1)), Ok(()));
    }
    assert!(q.is_full());
    q.sync();
    q.kernel_consume(2);
    q.sync();
    assert_eq!(q.len(), 2);
    // the wrapped counters still address the right slots
    assert_eq!(q.slot_at(0).get_user_data(), 3);
    assert_eq!(q.slot_at(1).get_user_data(), 4);
    assert_eq!(q.slot_at(2), Entry::default());
    assert_eq!(q.slot_at(3), Entry::default());
}

#[test]
fn push_inline_fills_the_slot_in_place() {
    let mut q: SubmissionQueue<Entry> = SubmissionQueue::new(2);
    assert_eq!(q.push_inline(|e: Entry| e.user_data(77)), Ok(()));
    assert_eq!(q.len(), 1);
    assert_eq!(q.slot_at(0).get_user_data(), 77);
    assert_eq!(q.push_inline(|e: Entry| e.user_data(78)), Ok(()));
    assert!(q.is_full());
    assert_eq!(q.push_inline(|e: Entry| e.user_data(79)), Err(PushError));
    assert_eq!(q.len(), 2);
}

#[test]
fn pending_entries_lists_the_queue_in_push_order() {
    let mut q: SubmissionQueue<Entry> = SubmissionQueue::new(4);
    assert!(q.pending_entries().is_empty());
    for i in 0..3u64 {
        assert_eq!(q.push(&Entry::default().user_data(i + 1)), Ok(()));
    }
    let pending = q.pending_entries();
    assert_eq!(pending.len(), 3);
    for (k, e) in pending.iter().enumerate() {
        assert_eq!(e.get_user_data(), k as u64 + 1);
    }
    q.sync();
    q.kernel_consume(3);
    q.sync();
    assert!(q.pending_entries().is_empty());
}

#[test]
fn wakeup_and_diagnostic_flags() {
    let mut q: SubmissionQueue<Entry> = SubmissionQueue::new(2);
    assert!(!q.need_wakeup());
    assert!(!q.need_wakeup_after_intermittent_seqcst());
    assert!(!q.cq_overflow());
    assert!(!q.taskrun());
    assert_eq!(q.dropped(), 0);
    q.kernel_set_flags(sys::IORING_SQ_NEED_WAKEUP);
    assert!(q.need_wakeup());
    assert!(q.need_wakeup_after_intermittent_seqcst());
    assert!(!q.cq_overflow());
    q.kernel_set_flags(sys::IORING_SQ_CQ_OVERFLOW | sys::IORING_SQ_TASKRUN);
    assert!(!q.need_wakeup());
    assert!(q.cq_overflow());
    assert!(q.taskrun());
    q.kernel_set_dropped(5);
    assert_eq!(q.dropped(), 5);
}

#[test]
fn entry_setters_and_default() {
    let e = Entry::default();
    assert_eq!(e.get_user_data(), 0);
    let e = e.user_data(42).personality(7).flags(Flags::io_drain());
    assert_eq!(e.get_user_data(), 42);
    let mut e2 = e;
    e2.set_user_data(43);
    assert_eq!(e2.get_user_data(), 43);
}

#[test]
fn flags_compose_orthogonally() {
    let one_way = Flags::io_link().union(Flags::io_async());
    let other_way = Flags::io_async().union(Flags::io_link());
    assert_eq!(one_way.bits(), other_way.bits());
    assert!(one_way.contains(Flags::io_link()));
    assert!(one_way.contains(Flags::io_async()));
    assert!(!one_way.contains(Flags::io_drain()));
    assert_eq!(Flags::empty().bits(), 0);
    assert_eq!(Flags::from_bits(one_way.bits()), one_way);
    // a descriptor round-trips the union through push and read-back
    let mut q: SubmissionQueue<Entry> = SubmissionQueue::new(2);
    let e = Entry::default().flags(Flags::io_link()).flags(Flags::io_async());
    assert_eq!(q.push(&e), Ok(()));
    let back = q.slot_at(0);
    assert_eq!(back.flags, one_way.bits());
    assert_eq!(back, Entry::default().flags(one_way));
}

#[test]
fn extended_entries_push_and_read_back() {
    let mut q: SubmissionQueue<Entry128> = SubmissionQueue::new(2);
    let wide = Entry128::from(Entry::default().user_data(9)).personality(3).flags(
        Flags::skip_success(),
    );
    assert_eq!(q.push(&wide), Ok(()));
    assert_eq!(q.slot_at(0), wide);
    let widened: Entry128 = Entry::default().user_data(9).into();
    assert_eq!(widened.0.get_user_data(), 9);
    assert_eq!(widened.1, [0u8; 64]);
}

#[test]
fn build_flags_select_the_stride() {
    assert_eq!(Entry::build_flags(), 0);
    assert_eq!(Entry128::build_flags(), sys::IORING_SETUP_SQE128);
}

#[test]
fn push_error_message() {
    assert_eq!(PushError.message(), "submission queue is full");
    assert_eq!(PushError, PushError.clone());
}
