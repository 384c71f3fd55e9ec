//! The submission queue: request descriptors, the descriptor flag bitset,
//! and the producer side of the shared ring buffer.

use crate::sys;
use vstd::prelude::*;

verus! {

/// Submission flags: independent boolean modifiers on a request descriptor.
#[derive(Clone, Copy, PartialEq, Eq, PartialOrd, Ord, Structural, Debug)]
pub struct Flags {
    bits: u8,
}

impl Flags {
    /// The raw bit pattern of this flag set.
    pub closed spec fn spec_bits(self) -> u8 {
        self.bits
    }

    /// The raw bit pattern of this flag set.
    #[verifier::when_used_as_spec(spec_bits)]
    pub fn bits(self) -> (r: u8)
        ensures
            r == self.spec_bits(),
    {
        self.bits
    }

    /// The empty flag set.
    pub fn empty() -> (r: Flags)
        ensures
            r.bits() == 0,
    {
        Flags { bits: 0 }
    }

    /// A flag set with the given bits; bits outside the closed set of
    /// defined flags are dropped.
    pub fn from_bits(bits: u8) -> (r: Flags)
        ensures
            r.bits() == bits & 0x7f,
    {
        Flags { bits: bits & 0x7f }
    }

    /// `fd` is an index into the files array registered with the ring
    /// instance, not a raw descriptor.
    pub fn fixed_file() -> (r: Flags)
        ensures
            r.bits() == 1u8 << sys::IOSQE_FIXED_FILE_BIT,
    {
        Flags { bits: 1u8 << sys::IOSQE_FIXED_FILE_BIT }
    }

    /// The request is not started before previously submitted requests have
    /// completed, and later requests wait for it in turn.
    pub fn io_drain() -> (r: Flags)
        ensures
            r.bits() == 1u8 << sys::IOSQE_IO_DRAIN_BIT,
    {
        Flags { bits: 1u8 << sys::IOSQE_IO_DRAIN_BIT }
    }

    /// Forms a link with the next descriptor in the ring: that one is not
    /// started before this one completes.
    pub fn io_link() -> (r: Flags)
        ensures
            r.bits() == 1u8 << sys::IOSQE_IO_LINK_BIT,
    {
        Flags { bits: 1u8 << sys::IOSQE_IO_LINK_BIT }
    }

    /// Like the link flag, but the link does not sever on failure.
    pub fn io_hardlink() -> (r: Flags)
        ensures
            r.bits() == 1u8 << sys::IOSQE_IO_HARDLINK_BIT,
    {
        Flags { bits: 1u8 << sys::IOSQE_IO_HARDLINK_BIT }
    }

    /// Ask for the request to be issued asynchronously from the start.
    pub fn io_async() -> (r: Flags)
        ensures
            r.bits() == 1u8 << sys::IOSQE_ASYNC_BIT,
    {
        Flags { bits: 1u8 << sys::IOSQE_ASYNC_BIT }
    }

    /// Let the kernel pick a buffer from the group named by the descriptor's
    /// buffer-group field.
    pub fn buffer_select() -> (r: Flags)
        ensures
            r.bits() == 1u8 << sys::IOSQE_BUFFER_SELECT_BIT,
    {
        Flags { bits: 1u8 << sys::IOSQE_BUFFER_SELECT_BIT }
    }

    /// Do not post a completion record if the request succeeds.
    pub fn skip_success() -> (r: Flags)
        ensures
            r.bits() == 1u8 << sys::IOSQE_CQE_SKIP_SUCCESS_BIT,
    {
        Flags { bits: 1u8 << sys::IOSQE_CQE_SKIP_SUCCESS_BIT }
    }

    /// The union of two flag sets.
    pub fn union(self, other: Flags) -> (r: Flags)
        ensures
            r.bits() == (self.bits() | other.bits()),
    {
        Flags { bits: self.bits | other.bits }
    }

    /// Whether every bit of `other` is set in `self`.
    pub fn contains(self, other: Flags) -> (r: bool)
        ensures
            r == ((self.bits() & other.bits()) == other.bits()),
    {
        (self.bits & other.bits) == other.bits
    }
}

/// The union of two flag sets is the same whichever order the two are
/// combined in, and so is the result of folding them onto an already-set
/// bit pattern one after the other.
pub proof fn lemma_flags_union_commutes(a: Flags, b: Flags)
    ensures
        a.spec_bits() | b.spec_bits() == b.spec_bits() | a.spec_bits(),
{
    let x = a.spec_bits();
    let y = b.spec_bits();
    assert(x | y == y | x) by (bit_vector);
}

/// Folding two flag patterns onto an already-set bit pattern one after the
/// other yields the union of both, in either order.
pub proof fn lemma_flag_sets_accumulate(f: u8, a: u8, b: u8)
    ensures
        (f | a) | b == f | (a | b),
        (f | a) | b == (f | b) | a,
{
    assert((f | a) | b == f | (a | b)) by (bit_vector);
    assert((f | a) | b == (f | b) | a) by (bit_vector);
}

/// A standard-size request descriptor: one fixed-size record describing an
/// asynchronous I/O request. All-zero is the valid "no-op" default state.
///
/// The fields mirror the kernel's fixed binary layout for the standard
/// stride. Fields whose meaning depends on the operation kind carry the name
/// of their most common role; the typed builders in [`crate::opcode`] are the
/// intended way to fill them.
#[derive(Clone, Copy, PartialEq, Eq, Structural, Debug)]
pub struct Entry {
    pub opcode: u8,
    pub flags: u8,
    pub ioprio: u16,
    pub fd: i32,
    /// Second address: a file offset or a destination-address pointer value.
    pub addr2: u64,
    /// First address: usually the buffer the operation reads or writes.
    pub addr: u64,
    pub len: u32,
    /// Operation-specific flags (message flags and the like).
    pub op_flags: u32,
    pub user_data: u64,
    /// Buffer index or buffer-group id, depending on the operation.
    pub buf_index: u16,
    pub personality: u16,
    /// Destination-address length, or a splice descriptor.
    pub addr_len: u32,
    pub addr3: u64,
    pub pad: u64,
}

/// An extended-size request descriptor: the standard record followed by a
/// fixed-size opaque payload.
#[derive(Clone, Copy, PartialEq, Eq, Debug)]
pub struct Entry128(pub Entry, pub [u8; 64]);

/// A request descriptor of either size. The ring's slot stride and the
/// descriptor type pushed into it must match; the stride is selected at
/// ring-creation time by [`EntryMarker::build_flags`].
pub trait EntryMarker: Copy + Sized + From<Entry> {
    /// The all-zero descriptor of this size.
    spec fn zeroed_spec() -> Self;

    /// The ring-creation flag that selects this descriptor stride.
    spec fn spec_build_flags() -> u32;

    /// A fresh all-zero descriptor.
    fn zeroed() -> (r: Self)
        ensures
            r == Self::zeroed_spec(),
    ;

    /// The ring-creation flag that selects this descriptor stride.
    fn build_flags() -> (r: u32)
        ensures
            r == Self::spec_build_flags(),
    ;
}

impl Entry {
    /// The all-zero descriptor.
    pub open spec fn spec_zeroed() -> Entry {
        Entry {
            opcode: 0,
            flags: 0,
            ioprio: 0,
            fd: 0,
            addr2: 0,
            addr: 0,
            len: 0,
            op_flags: 0,
            user_data: 0,
            buf_index: 0,
            personality: 0,
            addr_len: 0,
            addr3: 0,
            pad: 0,
        }
    }

    /// Set the submission event's [flags](Flags).
    pub fn flags(self, flags: Flags) -> (r: Entry)
        ensures
            r == (Entry { flags: self.flags | flags.bits(), ..self }),
    {
        Entry { flags: self.flags | flags.bits(), ..self }
    }

    /// Set the user data: an application-supplied value passed straight
    /// through into the matching completion record.
    pub fn user_data(self, user_data: u64) -> (r: Entry)
        ensures
            r == (Entry { user_data, ..self }),
    {
        Entry { user_data, ..self }
    }

    /// Set the user data in place.
    pub fn set_user_data(&mut self, user_data: u64)
        ensures
            *final(self) == (Entry { user_data, ..*old(self) }),
    {
        self.user_data = user_data;
    }

    /// Get the previously application-supplied user data.
    pub fn get_user_data(&self) -> (r: u64)
        ensures
            r == self.user_data,
    {
        self.user_data
    }

    /// Set the personality of this event, as obtained from the ring's
    /// personality registration.
    pub fn personality(self, personality: u16) -> (r: Entry)
        ensures
            r == (Entry { personality, ..self }),
    {
        Entry { personality, ..self }
    }
}

impl Default for Entry {
    /// The all-zero no-op descriptor.
    fn default() -> (r: Entry)
        ensures
            r == Entry::spec_zeroed(),
    {
        Entry {
            opcode: 0,
            flags: 0,
            ioprio: 0,
            fd: 0,
            addr2: 0,
            addr: 0,
            len: 0,
            op_flags: 0,
            user_data: 0,
            buf_index: 0,
            personality: 0,
            addr_len: 0,
            addr3: 0,
            pad: 0,
        }
    }
}

impl EntryMarker for Entry {
    open spec fn zeroed_spec() -> Entry {
        Entry::spec_zeroed()
    }

    open spec fn spec_build_flags() -> u32 {
        0
    }

    fn zeroed() -> (r: Entry)
        ensures
            r == Self::zeroed_spec(),
    {
        Entry {
            opcode: 0,
            flags: 0,
            ioprio: 0,
            fd: 0,
            addr2: 0,
            addr: 0,
            len: 0,
            op_flags: 0,
            user_data: 0,
            buf_index: 0,
            personality: 0,
            addr_len: 0,
            addr3: 0,
            pad: 0,
        }
    }

    fn build_flags() -> (r: u32)
        ensures
            r == Self::spec_build_flags(),
    {
        0
    }
}

impl Entry128 {
    /// The all-zero extended descriptor.
    pub open spec fn spec_zeroed() -> Entry128 {
        Entry128(Entry::spec_zeroed(), vstd::array::spec_array_fill_for_copy_type::<u8, 64>(0u8))
    }

    /// Set the submission event's [flags](Flags).
    pub fn flags(self, flags: Flags) -> (r: Entry128)
        ensures
            r == Entry128(Entry { flags: self.0.flags | flags.bits(), ..self.0 }, self.1),
    {
        Entry128(Entry { flags: self.0.flags | flags.bits(), ..self.0 }, self.1)
    }

    /// Set the user data: an application-supplied value passed straight
    /// through into the matching completion record.
    pub fn user_data(self, user_data: u64) -> (r: Entry128)
        ensures
            r == Entry128(Entry { user_data, ..self.0 }, self.1),
    {
        Entry128(Entry { user_data, ..self.0 }, self.1)
    }

    /// Set the personality of this event, as obtained from the ring's
    /// personality registration.
    pub fn personality(self, personality: u16) -> (r: Entry128)
        ensures
            r == Entry128(Entry { personality, ..self.0 }, self.1),
    {
        Entry128(Entry { personality, ..self.0 }, self.1)
    }
}

impl EntryMarker for Entry128 {
    open spec fn zeroed_spec() -> Entry128 {
        Entry128::spec_zeroed()
    }

    open spec fn spec_build_flags() -> u32 {
        sys::IORING_SETUP_SQE128
    }

    fn zeroed() -> (r: Entry128)
        ensures
            r == Self::zeroed_spec(),
    {
        Entry128(Entry::zeroed(), [0u8; 64])
    }

    fn build_flags() -> (r: u32)
        ensures
            r == Self::spec_build_flags(),
    {
        sys::IORING_SETUP_SQE128
    }
}

impl From<Entry> for Entry128 {
    /// Widen a standard descriptor: the extended payload is zero.
    fn from(entry: Entry) -> (r: Entry128) {
        Entry128(entry, [0u8; 64])
    }
}

impl vstd::std_specs::convert::FromSpecImpl<Entry> for Entry128 {
    open spec fn obeys_from_spec() -> bool {
        true
    }

    open spec fn from_spec(entry: Entry) -> Entry128 {
        Entry128(entry, vstd::array::spec_array_fill_for_copy_type::<u8, 64>(0u8))
    }
}

/// Subtraction of wrapping 32-bit counters: the logical distance from `b`
/// forward to `a`. Counters are unbounded values truncated to 32 bits and are
/// only ever compared this way, never by absolute magnitude.
pub open spec fn wsub(a: u32, b: u32) -> int {
    if a >= b {
        a - b
    } else {
        a - b + 0x1_0000_0000
    }
}

/// A wrapping 32-bit counter advanced by `k` steps.
pub open spec fn wadd(a: u32, k: int) -> u32
    recommends
        0 <= k < 0x1_0000_0000,
{
    if a + k < 0x1_0000_0000 {
        (a + k) as u32
    } else {
        (a + k - 0x1_0000_0000) as u32
    }
}

/// Wrapping distances compose: stepping a counter forward never loses count
/// as long as the total distance stays below the wrap modulus.
pub proof fn lemma_wsub_wadd(a: u32, b: u32, k: int)
    requires
        0 <= k,
        wsub(a, b) + k < 0x1_0000_0000,
    ensures
        wsub(wadd(a, k), b) == wsub(a, b) + k,
{
}

/// Advancing the rear counter by `k` shortens the distance by `k`.
pub proof fn lemma_wsub_advance_rear(a: u32, b: u32, k: int)
    requires
        0 <= k <= wsub(a, b),
    ensures
        wsub(a, wadd(b, k)) == wsub(a, b) - k,
{
}

/// Distances through an intermediate counter add up, as long as the sum does
/// not reach the wrap modulus.
pub proof fn lemma_wsub_chain(a: u32, b: u32, c: u32)
    requires
        wsub(a, b) + wsub(b, c) < 0x1_0000_0000,
    ensures
        wsub(a, c) == wsub(a, b) + wsub(b, c),
{
}

/// With a power-of-two ring size, masking keeps every counter inside the
/// slot array.
pub proof fn lemma_mask_in_range(x: u32, n: u32, m: u32)
    requires
        n > 0,
        m == (n - 1) as u32,
        n & m == 0,
    ensures
        (x & m) < n,
{
    assert((x & m) < n) by (bit_vector)
        requires
            n > 0 && m == (n - 1) as u32 && n & m == 0,
    ;
}

/// Where a counter `k` steps past `h` lands in the slot array: at the masked
/// position of `h` plus `k`, wrapped once past the end of the array.
pub proof fn lemma_mask_step(h: u32, k: u32, n: u32, m: u32)
    requires
        n > 0,
        m == (n - 1) as u32,
        n & m == 0,
        k <= n,
    ensures
        (wadd(h, k as int) & m) as int == if (h & m) + k < n {
            (h & m) + k
        } else {
            (h & m) + k - n
        },
{
    let q = wadd(h, k as int);
    assert((q & m) as int == if (h & m) + k < n {
        (h & m) + k
    } else {
        (h & m) + k - n
    }) by (bit_vector)
        requires
            n > 0 && m == (n - 1) as u32 && n & m == 0 && k <= n && ((h + k < 0x1_0000_0000 && q
                == (h + k) as u32) || (h + k >= 0x1_0000_0000 && q == (h + k
                - 0x1_0000_0000) as u32)),
    ;
}

/// Stepping the rear counter forward by the whole distance reaches the front
/// counter.
pub proof fn lemma_wadd_wsub(a: u32, b: u32)
    ensures
        wadd(b, wsub(a, b)) == a,
{
}

/// The ghost model of the whole channel: the kernel-shared counters and
/// flags word, the slot array, and the producer's private shadow counters.
///
/// The counters stand in ring order `local_head`, `shared_head`,
/// `shared_tail`, `local_tail`: slots before `shared_head` were consumed by
/// the kernel, slots before `shared_tail` are published, slots before
/// `local_tail` are enqueued but possibly not yet published.
#[verifier::ext_equal]
pub struct SqView<E> {
    pub ring_entries: u32,
    pub ring_mask: u32,
    pub shared_head: u32,
    pub shared_tail: u32,
    pub shared_flags: u32,
    pub dropped: u32,
    pub slots: Seq<E>,
    pub local_head: u32,
    pub local_tail: u32,
}

impl<E> SqView<E> {
    /// The fixed number of slots.
    pub open spec fn capacity(self) -> int {
        self.ring_entries as int
    }

    /// The queue's current logical length: entries enqueued and not yet
    /// known to be consumed.
    pub open spec fn len(self) -> int {
        wsub(self.local_tail, self.local_head)
    }

    pub open spec fn is_empty(self) -> bool {
        self.len() == 0
    }

    pub open spec fn is_full(self) -> bool {
        self.len() == self.capacity()
    }

    /// The slot index a counter value addresses.
    pub open spec fn slot_of(self, counter: u32) -> int {
        (counter & self.ring_mask) as int
    }

    /// Well-formedness: a power-of-two ring with its derived mask, a slot
    /// array of exactly that size, and the four counters in ring order with
    /// at most `ring_entries` slots between the outermost two.
    pub open spec fn wf(self) -> bool {
        &&& self.ring_entries > 0
        &&& self.ring_mask == (self.ring_entries - 1) as u32
        &&& self.ring_entries & self.ring_mask == 0
        &&& self.slots.len() == self.ring_entries
        &&& wsub(self.shared_head, self.local_head) + wsub(self.shared_tail, self.shared_head)
            + wsub(self.local_tail, self.shared_tail) <= self.ring_entries
    }

    /// The three counter segments cover the queue's whole length.
    pub proof fn lemma_segments(self)
        requires
            self.wf(),
        ensures
            self.len() == wsub(self.shared_head, self.local_head) + wsub(
                self.shared_tail,
                self.shared_head,
            ) + wsub(self.local_tail, self.shared_tail),
            0 <= self.len() <= self.capacity(),
    {
        lemma_wsub_chain(self.shared_tail, self.shared_head, self.local_head);
        lemma_wsub_chain(self.local_tail, self.shared_tail, self.local_head);
    }

    /// The state after one unchecked push: the descriptor is copied into the
    /// slot the local tail addresses, and the local tail advances by one.
    pub open spec fn push(self, e: E) -> SqView<E> {
        SqView {
            local_tail: wadd(self.local_tail, 1),
            slots: self.slots.update(self.slot_of(self.local_tail), e),
            ..self
        }
    }

    /// The state after pushing a whole batch in order.
    pub open spec fn push_seq(self, es: Seq<E>) -> SqView<E>
        decreases es.len(),
    {
        if es.len() == 0 {
            self
        } else {
            self.push(es[0]).push_seq(es.drop_first())
        }
    }

    /// A push below capacity preserves well-formedness and adds one entry.
    pub proof fn lemma_push_wf(self, e: E)
        requires
            self.wf(),
            self.len() < self.capacity(),
        ensures
            self.push(e).wf(),
            self.push(e).len() == self.len() + 1,
            0 <= self.slot_of(self.local_tail) < self.ring_entries,
    {
        self.lemma_segments();
        lemma_wsub_wadd(self.local_tail, self.shared_tail, 1);
        lemma_wsub_wadd(self.local_tail, self.local_head, 1);
        lemma_mask_in_range(self.local_tail, self.ring_entries, self.ring_mask);
    }
}

/// Pushing a batch one entry at a time folds from the left: a batch with one
/// more entry at its end is the shorter batch followed by one push.
pub proof fn lemma_push_seq_snoc<E>(v: SqView<E>, s: Seq<E>, e: E)
    ensures
        v.push_seq(s.push(e)) == v.push_seq(s).push(e),
    decreases s.len(),
{
    if s.len() == 0 {
        assert(v.push_seq(s) == v);
        assert(s.push(e)[0] == e);
        assert(s.push(e).drop_first() =~= Seq::<E>::empty());
        assert(v.push_seq(s.push(e)) == v.push(e).push_seq(Seq::<E>::empty()));
        assert(v.push(e).push_seq(Seq::<E>::empty()) == v.push(e));
    } else {
        assert(s.push(e)[0] == s[0]);
        assert(s.push(e).drop_first() =~= s.drop_first().push(e));
        lemma_push_seq_snoc(v.push(s[0]), s.drop_first(), e);
        assert(v.push_seq(s.push(e)) == v.push(s[0]).push_seq(s.drop_first().push(e)));
        assert(v.push_seq(s) == v.push(s[0]).push_seq(s.drop_first()));
    }
}

/// Any batch of pushes that fits in the remaining capacity adds exactly its
/// length to the queue: after the batch, the length has grown by the number
/// of pushes.
pub proof fn lemma_push_seq_len<E>(v: SqView<E>, s: Seq<E>)
    requires
        v.wf(),
        v.len() + s.len() <= v.capacity(),
    ensures
        v.push_seq(s).wf(),
        v.push_seq(s).len() == v.len() + s.len(),
    decreases s.len(),
{
    if s.len() > 0 {
        v.lemma_push_wf(s[0]);
        lemma_push_seq_len(v.push(s[0]), s.drop_first());
    }
}

/// Copy fidelity of a push: the slot addressed by the old local tail holds
/// exactly the pushed descriptor, and reading that slot back yields the
/// byte-for-byte identical record the builder produced.
pub proof fn lemma_push_round_trip<E>(v: SqView<E>, e: E)
    requires
        v.wf(),
        v.len() < v.capacity(),
    ensures
        v.push(e).slots[v.slot_of(v.local_tail)] == e,
{
    v.lemma_push_wf(e);
}

impl<E: EntryMarker> SqView<E> {
    /// The number of slots `sync` returns to the pool: the distance from the
    /// cached local head to the kernel-visible head.
    pub open spec fn reclaimable(self) -> int {
        wsub(self.shared_head, self.local_head)
    }

    /// Whether slot `j` lies in the range being reclaimed by `sync`: the
    /// half-open counter range from the old local head to the kernel-visible
    /// head, taken modulo the ring size.
    pub open spec fn reclaims(self, j: int) -> bool {
        exists|k: int|
            0 <= k < self.reclaimable() && j == self.slot_of(wadd(self.local_head, k))
    }

    /// The state after `sync`: the local tail is published to the
    /// kernel-visible tail, the local head is refreshed from the
    /// kernel-visible head, and every reclaimed slot is zeroed so that a
    /// freshly acquired slot is always observed as all-zero.
    pub open spec fn sync(self) -> SqView<E> {
        SqView {
            shared_tail: self.local_tail,
            local_head: self.shared_head,
            slots: Seq::new(
                self.slots.len(),
                |j: int| if self.reclaims(j) { E::zeroed_spec() } else { self.slots[j] },
            ),
            ..self
        }
    }

    /// `sync` preserves well-formedness, leaves the logical position of the
    /// tail alone, and shortens the queue by exactly the reclaimed count.
    pub proof fn lemma_sync_wf(self)
        requires
            self.wf(),
        ensures
            self.sync().wf(),
            self.sync().len() == self.len() - self.reclaimable(),
            0 <= self.reclaimable() <= self.ring_entries,
    {
        self.lemma_segments();
        lemma_wsub_chain(self.local_tail, self.shared_tail, self.shared_head);
    }

    /// The state after the kernel consumes `k` published entries: the
    /// kernel-visible head advances by `k`. The completion-queue collaborator
    /// advances it exactly once per consumed slot and never past the
    /// published tail.
    pub open spec fn consume(self, k: int) -> SqView<E> {
        SqView { shared_head: wadd(self.shared_head, k), ..self }
    }

    /// Consuming no more than the published, unconsumed entries preserves
    /// well-formedness and leaves the logical length unchanged (the producer
    /// has not yet observed the consumption).
    pub proof fn lemma_consume_wf(self, k: int)
        requires
            self.wf(),
            0 <= k <= wsub(self.shared_tail, self.shared_head),
        ensures
            self.consume(k).wf(),
            self.consume(k).len() == self.len(),
    {
        self.lemma_segments();
        lemma_wsub_wadd(self.shared_head, self.local_head, k);
        lemma_wsub_advance_rear(self.shared_tail, self.shared_head, k);
    }

    /// After `sync`, every slot in the half-open counter range from the old
    /// local head up to the new local head (the refreshed kernel-visible
    /// head), taken modulo the ring size, is all-zero, so a subsequent push
    /// can only ever reuse a zeroed slot.
    pub proof fn lemma_sync_zeroes_reclaimed(self, k: int)
        requires
            self.wf(),
            0 <= k < self.reclaimable(),
        ensures
            self.sync().slots[self.slot_of(wadd(self.local_head, k))] == E::zeroed_spec(),
    {
        self.lemma_segments();
        lemma_mask_in_range(wadd(self.local_head, k), self.ring_entries, self.ring_mask);
        assert(self.reclaims(self.slot_of(wadd(self.local_head, k))));
    }

    /// The reclaimed counter range, taken modulo the ring size, is one
    /// contiguous run of slot indices when it does not cross the end of the
    /// slot array, and the run's two wrapped pieces when it does.
    pub proof fn lemma_reclaim_ranges(self)
        requires
            self.wf(),
        ensures
            self.reclaimable() == 0 ==> forall|j: int| !#[trigger] self.reclaims(j),
            self.reclaimable() > 0 && (self.shared_head & self.ring_mask) > (self.local_head
                & self.ring_mask) ==> forall|j: int|
                #[trigger] self.reclaims(j) <==> (self.local_head & self.ring_mask) <= j < (
                self.shared_head & self.ring_mask),
            self.reclaimable() > 0 && (self.shared_head & self.ring_mask) <= (self.local_head
                & self.ring_mask) ==> forall|j: int|
                #[trigger] self.reclaims(j) <==> ((self.local_head & self.ring_mask) <= j
                    < self.ring_entries || 0 <= j < (self.shared_head & self.ring_mask)),
    {
        let n = self.ring_entries;
        let m = self.ring_mask;
        let h = self.local_head;
        let off = (h & m) as int;
        let off2 = (self.shared_head & m) as int;
        let rec = self.reclaimable();
        self.lemma_segments();
        lemma_wadd_wsub(self.shared_head, self.local_head);
        assert(self.shared_head == wadd(h, rec));
        lemma_mask_in_range(h, n, m);
        lemma_mask_in_range(self.shared_head, n, m);
        assert forall|k: int| 0 <= k <= rec implies (#[trigger] wadd(h, k) & m) as int == (if off
            + k < n {
            off + k
        } else {
            off + k - n
        }) by {
            assert(wadd(h, k) == wadd(h, (k as u32) as int));
            lemma_mask_step(h, k as u32, n, m);
        }
        if rec > 0 {
            if off2 > off {
                // the published range does not cross the end of the array
                assert(off2 == off + rec);
                assert forall|j: int| #[trigger] self.reclaims(j) implies off <= j < off2 by {
                    let k = choose|k: int|
                        0 <= k < rec && j == self.slot_of(wadd(self.local_head, k));
                }
                assert forall|j: int| off <= j < off2 implies #[trigger] self.reclaims(j) by {
                    let k = j - off;
                    assert(j == self.slot_of(wadd(self.local_head, k)));
                }
            } else {
                // the published range wraps: a tail segment then a prefix
                assert(off2 == off + rec - n);
                assert forall|j: int| #[trigger] self.reclaims(j) implies (off <= j < n || 0 <= j
                    < off2) by {
                    let k = choose|k: int|
                        0 <= k < rec && j == self.slot_of(wadd(self.local_head, k));
                }
                assert forall|j: int| off <= j < n implies #[trigger] self.reclaims(j) by {
                    let k = j - off;
                    assert(j == self.slot_of(wadd(self.local_head, k)));
                }
                assert forall|j: int| 0 <= j < off2 implies #[trigger] self.reclaims(j) by {
                    let k = j + n - off;
                    assert(j == self.slot_of(wadd(self.local_head, k)));
                }
            }
        }
    }
}

/// An error pushing to the submission queue due to it being full.
#[derive(Clone, Copy, PartialEq, Eq, Structural, Debug)]
pub struct PushError;

impl PushError {
    /// A human-readable description of the error: the queue-full condition,
    /// which carries no further payload.
    pub fn message(&self) -> (r: String)
        ensures
            r@ == "submission queue is full"@,
    {
        "submission queue is full".to_string()
    }
}

/// The producer side of a ring instance's submission queue. This is used to
/// send I/O requests to the kernel.
///
/// It owns the model of the kernel-shared ring region (counters, flags word,
/// dropped counter and slot array) together with the producer's private
/// shadow counters. The kernel's side of the protocol is modeled by the
/// `kernel_*` operations.
pub struct SubmissionQueue<E: EntryMarker = Entry> {
    ring_entries: u32,
    ring_mask: u32,
    shared_head: u32,
    shared_tail: u32,
    shared_flags: u32,
    dropped: u32,
    slots: Vec<E>,
    local_head: u32,
    local_tail: u32,
}

impl<E: EntryMarker> View for SubmissionQueue<E> {
    type V = SqView<E>;

    closed spec fn view(&self) -> SqView<E> {
        SqView {
            ring_entries: self.ring_entries,
            ring_mask: self.ring_mask,
            shared_head: self.shared_head,
            shared_tail: self.shared_tail,
            shared_flags: self.shared_flags,
            dropped: self.dropped,
            slots: self.slots@,
            local_head: self.local_head,
            local_tail: self.local_tail,
        }
    }
}

impl<E: EntryMarker> SubmissionQueue<E> {
    /// Create the producer view of a freshly set-up ring of `ring_entries`
    /// slots (a power of two): all counters at their initial value and every
    /// slot zeroed, as the setup collaborator hands the region over.
    pub fn new(ring_entries: u32) -> (r: SubmissionQueue<E>)
        requires
            ring_entries > 0,
            ring_entries & (ring_entries - 1) as u32 == 0,
        ensures
            r@.wf(),
            r@.ring_entries == ring_entries,
            r@.shared_head == 0,
            r@.shared_tail == 0,
            r@.shared_flags == 0,
            r@.dropped == 0,
            r@.local_head == 0,
            r@.local_tail == 0,
            forall|j: int| 0 <= j < ring_entries ==> r@.slots[j] == E::zeroed_spec(),
    {
        let mut slots: Vec<E> = Vec::new();
        let mut i: u32 = 0;
        while i < ring_entries
            invariant
                i <= ring_entries,
                slots@.len() == i,
                forall|j: int| 0 <= j < i ==> slots@[j] == E::zeroed_spec(),
            decreases ring_entries - i,
        {
            slots.push(E::zeroed());
            i = i + 1;
        }
        SubmissionQueue {
            ring_entries,
            ring_mask: ring_entries - 1,
            shared_head: 0,
            shared_tail: 0,
            shared_flags: 0,
            dropped: 0,
            slots,
            local_head: 0,
            local_tail: 0,
        }
    }

    /// Take over the producer side of a ring that is already in use, as the
    /// setup collaborator hands it over: the ring constants, the current
    /// kernel-visible counters and flags, and the current slot contents. The
    /// local shadow counters are seeded from the kernel-visible values, so
    /// nothing is pending publication and nothing is reclaimable yet.
    pub fn attach(
        ring_entries: u32,
        head: u32,
        tail: u32,
        flags: u32,
        dropped: u32,
        slots: Vec<E>,
    ) -> (r: SubmissionQueue<E>)
        requires
            ring_entries > 0,
            ring_entries & (ring_entries - 1) as u32 == 0,
            slots@.len() == ring_entries,
            wsub(tail, head) <= ring_entries,
        ensures
            r@.wf(),
            r@ == (SqView {
                ring_entries,
                ring_mask: (ring_entries - 1) as u32,
                shared_head: head,
                shared_tail: tail,
                shared_flags: flags,
                dropped,
                slots: slots@,
                local_head: head,
                local_tail: tail,
            }),
    {
        SubmissionQueue {
            ring_entries,
            ring_mask: ring_entries - 1,
            shared_head: head,
            shared_tail: tail,
            shared_flags: flags,
            dropped,
            slots,
            local_head: head,
            local_tail: tail,
        }
    }

    /// Get the total number of entries in the submission queue ring buffer.
    pub fn capacity(&self) -> (r: usize)
        ensures
            r == self@.capacity(),
    {
        self.ring_entries as usize
    }

    /// Get the number of submission queue events in the ring buffer.
    pub fn len(&self) -> (r: usize)
        ensures
            r == self@.len(),
    {
        self.local_tail.wrapping_sub(self.local_head) as usize
    }

    /// Returns `true` if the submission queue ring buffer is empty.
    pub fn is_empty(&self) -> (r: bool)
        ensures
            r == self@.is_empty(),
    {
        self.len() == 0
    }

    /// Returns `true` if the submission queue ring buffer has reached
    /// capacity, and no more events can be added before the kernel consumes
    /// some.
    pub fn is_full(&self) -> (r: bool)
        ensures
            r == self@.is_full(),
    {
        self.len() == self.capacity()
    }

    /// Whether the kernel's polling worker has gone to sleep and requires a
    /// system call to wake it up.
    ///
    /// In the shared-memory protocol this check is only sound immediately
    /// after a full sequentially consistent fence: the kernel writes the
    /// wakeup flag, fences, then reads the tail, so the producer must write
    /// the tail, fence, then read the flag. This model owns the region
    /// exclusively, so the fence has no observable effect here and the
    /// operation is simply the masked load.
    pub fn need_wakeup(&self) -> (r: bool)
        ensures
            r == (self@.shared_flags & sys::IORING_SQ_NEED_WAKEUP != 0),
    {
        self.shared_flags & sys::IORING_SQ_NEED_WAKEUP != 0
    }

    /// The effect of [`Self::need_wakeup`], after synchronization work
    /// performed by the caller: the variant for callers that can guarantee a
    /// suitable fence has already been placed after the last tail write.
    pub fn need_wakeup_after_intermittent_seqcst(&self) -> (r: bool)
        ensures
            r == (self@.shared_flags & sys::IORING_SQ_NEED_WAKEUP != 0),
    {
        self.shared_flags & sys::IORING_SQ_NEED_WAKEUP != 0
    }

    /// The number of invalid submission queue entries that have been
    /// encountered in the ring buffer.
    pub fn dropped(&self) -> (r: u32)
        ensures
            r == self@.dropped,
    {
        self.dropped
    }

    /// Returns `true` if the completion queue ring is overflown.
    pub fn cq_overflow(&self) -> (r: bool)
        ensures
            r == (self@.shared_flags & sys::IORING_SQ_CQ_OVERFLOW != 0),
    {
        self.shared_flags & sys::IORING_SQ_CQ_OVERFLOW != 0
    }

    /// Returns `true` if completions are pending that should be processed.
    pub fn taskrun(&self) -> (r: bool)
        ensures
            r == (self@.shared_flags & sys::IORING_SQ_TASKRUN != 0),
    {
        self.shared_flags & sys::IORING_SQ_TASKRUN != 0
    }

    /// Write a descriptor into the slot the local tail addresses and advance
    /// the local tail. The caller must have verified capacity beforehand;
    /// the entry is not visible to the kernel until `sync`.
    fn push_unchecked(&mut self, entry: &E)
        requires
            old(self)@.wf(),
            !old(self)@.is_full(),
        ensures
            final(self)@.wf(),
            final(self)@ == old(self)@.push(*entry),
    {
        proof {
            old(self)@.lemma_push_wf(*entry);
        }
        let idx = (self.local_tail & self.ring_mask) as usize;
        self.slots[idx] = *entry;
        self.local_tail = self.local_tail.wrapping_add(1);
        proof {
            assert(self@ =~= old(self)@.push(*entry));
        }
    }

    /// Attempts to push an entry into the queue. If the queue is full, an
    /// error is returned and the state is left unchanged.
    pub fn push(&mut self, entry: &E) -> (r: Result<(), PushError>)
        requires
            old(self)@.wf(),
        ensures
            final(self)@.wf(),
            old(self)@.is_full() ==> r is Err && final(self)@ == old(self)@,
            !old(self)@.is_full() ==> r is Ok && final(self)@ == old(self)@.push(*entry),
    {
        if !self.is_full() {
            self.push_unchecked(entry);
            Ok(())
        } else {
            Err(PushError)
        }
    }

    /// Attempts to push several entries into the queue. If the queue does
    /// not have room for the whole batch, an error is returned and no entry
    /// of the batch is written: the batch is all-or-nothing.
    pub fn push_multiple(&mut self, entries: &[E]) -> (r: Result<(), PushError>)
        requires
            old(self)@.wf(),
        ensures
            final(self)@.wf(),
            old(self)@.capacity() - old(self)@.len() < entries@.len() ==> r is Err
                && final(self)@ == old(self)@,
            old(self)@.capacity() - old(self)@.len() >= entries@.len() ==> r is Ok
                && final(self)@ == old(self)@.push_seq(entries@),
    {
        proof {
            self@.lemma_segments();
        }
        if self.capacity() - self.len() < entries.len() {
            return Err(PushError);
        }
        let mut i: usize = 0;
        proof {
            assert(entries@.take(0) =~= Seq::<E>::empty());
        }
        while i < entries.len()
            invariant
                old(self)@.wf(),
                i <= entries@.len(),
                entries@.len() <= old(self)@.capacity() - old(self)@.len(),
                self@.wf(),
                self@.ring_entries == old(self)@.ring_entries,
                self@ == old(self)@.push_seq(entries@.take(i as int)),
                self@.len() == old(self)@.len() + i,
            decreases entries@.len() - i,
        {
            let ghost pre = self@;
            self.push_unchecked(&entries[i]);
            proof {
                pre.lemma_push_wf(entries@[i as int]);
                assert(entries@.take(i + 1) =~= entries@.take(i as int).push(entries@[i as int]));
                lemma_push_seq_snoc(old(self)@, entries@.take(i as int), entries@[i as int]);
            }
            i = i + 1;
        }
        proof {
            assert(entries@.take(entries@.len() as int) =~= entries@);
        }
        Ok(())
    }

    /// Attempts to reserve the next slot and fill it in place: the current
    /// contents of the slot are handed to `f`, whose result is stored there,
    /// avoiding a separately built descriptor. If the queue is full, an
    /// error is returned and the state is left unchanged.
    pub fn push_inline<F: FnOnce(E) -> E>(&mut self, f: F) -> (r: Result<(), PushError>)
        requires
            old(self)@.wf(),
            forall|e: E| #[trigger] call_requires(f, (e,)),
        ensures
            final(self)@.wf(),
            old(self)@.is_full() ==> r is Err && final(self)@ == old(self)@,
            !old(self)@.is_full() ==> r is Ok && exists|v: E|
                #[trigger] call_ensures(
                    f,
                    (old(self)@.slots[old(self)@.slot_of(old(self)@.local_tail)],),
                    v,
                ) && final(self)@ == old(self)@.push(v),
    {
        if self.is_full() {
            Err(PushError)
        } else {
            proof {
                lemma_mask_in_range(self.local_tail, self.ring_entries, self.ring_mask);
            }
            let idx = (self.local_tail & self.ring_mask) as usize;
            let cur = self.slots[idx];
            let v = f(cur);
            proof {
                old(self)@.lemma_push_wf(v);
            }
            self.slots[idx] = v;
            self.local_tail = self.local_tail.wrapping_add(1);
            proof {
                assert(self@ =~= old(self)@.push(v));
            }
            Ok(())
        }
    }

    /// Zero every slot in `[from, to)` so it can be reused.
    fn zero_slots(&mut self, from: usize, to: usize)
        requires
            from <= to,
            to <= old(self)@.slots.len(),
        ensures
            final(self)@ == (SqView { slots: final(self)@.slots, ..old(self)@ }),
            final(self)@.slots.len() == old(self)@.slots.len(),
            forall|j: int|
                from <= j < to ==> #[trigger] final(self)@.slots[j] == E::zeroed_spec(),
            forall|j: int|
                0 <= j < old(self)@.slots.len() && !(from <= j < to)
                    ==> #[trigger] final(self)@.slots[j] == old(self)@.slots[j],
    {
        let mut i = from;
        while i < to
            invariant
                from <= i <= to,
                to <= old(self)@.slots.len(),
                self@ == (SqView { slots: self@.slots, ..old(self)@ }),
                self@.slots.len() == old(self)@.slots.len(),
                forall|j: int| from <= j < i ==> #[trigger] self@.slots[j] == E::zeroed_spec(),
                forall|j: int|
                    0 <= j < old(self)@.slots.len() && !(from <= j < i) ==> #[trigger] self@.slots[j]
                        == old(self)@.slots[j],
            decreases to - i,
        {
            self.slots[i] = E::zeroed();
            i = i + 1;
            proof {
                assert(self@ =~= (SqView { slots: self@.slots, ..old(self)@ }));
            }
        }
    }

    /// Synchronize this type with the real submission queue.
    ///
    /// This publishes the local tail to the kernel-visible tail (making the
    /// entries added by the push operations visible to the kernel), then
    /// refreshes the local head from the kernel-visible head. Every slot the
    /// refresh reclaims is zeroed before it can be reused, in one pass when
    /// the reclaimed range is contiguous in the slot array and in two
    /// (the segment up to the end of the array, then the wrapped prefix)
    /// when it crosses the ring boundary.
    pub fn sync(&mut self)
        requires
            old(self)@.wf(),
        ensures
            final(self)@.wf(),
            final(self)@ == old(self)@.sync(),
    {
        proof {
            old(self)@.lemma_sync_wf();
            old(self)@.lemma_reclaim_ranges();
            lemma_mask_in_range(old(self)@.local_head, self.ring_entries, self.ring_mask);
            lemma_mask_in_range(old(self)@.shared_head, self.ring_entries, self.ring_mask);
        }
        let head = self.local_head;
        self.shared_tail = self.local_tail;
        self.local_head = self.shared_head;
        let reclaimed = self.local_head.wrapping_sub(head);
        let offset = (head & self.ring_mask) as usize;
        let offset2 = (self.local_head & self.ring_mask) as usize;
        if reclaimed > 0 {
            if offset2 > offset {
                // zero forward
                self.zero_slots(offset, offset2);
            } else {
                // zero to the end of the slot array, then the wrapped prefix
                let end = self.ring_entries as usize;
                self.zero_slots(offset, end);
                self.zero_slots(0, offset2);
            }
        }
        proof {
            assert(self@.slots =~= old(self)@.sync().slots);
            assert(self@ =~= old(self)@.sync());
        }
    }

    /// Model of the completion-queue collaborator: the kernel consumes
    /// `count` published entries, advancing the kernel-visible head. It
    /// never consumes a slot whose publish it has not observed.
    pub fn kernel_consume(&mut self, count: u32)
        requires
            old(self)@.wf(),
            count <= wsub(old(self)@.shared_tail, old(self)@.shared_head),
        ensures
            final(self)@.wf(),
            final(self)@ == old(self)@.consume(count as int),
    {
        proof {
            old(self)@.lemma_consume_wf(count as int);
        }
        self.shared_head = self.shared_head.wrapping_add(count);
        proof {
            assert(self@ =~= old(self)@.consume(count as int));
        }
    }

    /// Model of the kernel writing the shared flags word (the wakeup,
    /// overflow and task-run bits).
    pub fn kernel_set_flags(&mut self, flags: u32)
        ensures
            final(self)@ == (SqView { shared_flags: flags, ..old(self)@ }),
    {
        self.shared_flags = flags;
        proof {
            assert(self@ =~= (SqView { shared_flags: flags, ..old(self)@ }));
        }
    }

    /// Model of the kernel recording invalid submissions in the shared
    /// dropped counter.
    pub fn kernel_set_dropped(&mut self, dropped: u32)
        ensures
            final(self)@ == (SqView { dropped, ..old(self)@ }),
    {
        self.dropped = dropped;
        proof {
            assert(self@ =~= (SqView { dropped, ..old(self)@ }));
        }
    }

    /// The entries currently in the queue, from the cached head to the local
    /// tail, in push order.
    pub fn pending_entries(&self) -> (r: Vec<E>)
        requires
            self@.wf(),
        ensures
            r@.len() == self@.len(),
            forall|k: int|
                0 <= k < r@.len() ==> r@[k] == self@.slots[self@.slot_of(
                    wadd(self@.local_head, k),
                )],
    {
        proof {
            self@.lemma_segments();
        }
        let mut r: Vec<E> = Vec::new();
        let mut pos = self.local_head;
        while pos != self.local_tail
            invariant
                self@.wf(),
                r@.len() == wsub(pos, self@.local_head),
                wsub(pos, self@.local_head) + wsub(self@.local_tail, pos) == self@.len(),
                forall|k: int|
                    0 <= k < r@.len() ==> r@[k] == self@.slots[self@.slot_of(
                        wadd(self@.local_head, k),
                    )],
            decreases wsub(self@.local_tail, pos),
        {
            proof {
                lemma_mask_in_range(pos, self.ring_entries, self.ring_mask);
                lemma_wadd_wsub(pos, self.local_head);
                lemma_wsub_wadd(pos, self.local_head, 1);
                lemma_wsub_advance_rear(self.local_tail, pos, 1);
            }
            r.push(self.slots[(pos & self.ring_mask) as usize]);
            pos = pos.wrapping_add(1);
        }
        r
    }

    /// Read back the raw slot a counter value addresses.
    pub fn slot_at(&self, pos: u32) -> (r: E)
        requires
            self@.wf(),
        ensures
            r == self@.slots[self@.slot_of(pos)],
    {
        proof {
            lemma_mask_in_range(pos, self.ring_entries, self.ring_mask);
        }
        self.slots[(pos & self.ring_mask) as usize]
    }
}

} // verus!
