//! Typed builders for the supported operation kinds.
//!
//! Every operation kind has a constructor that stamps its operation code
//! onto a request descriptor and then exposes only the setters that are
//! legal for that kind; a final `build` yields the completed descriptor,
//! ready to push. The builder value is threaded through each setter, so a
//! descriptor is finished exactly once.

use crate::squeue::Entry;
use crate::sys;
use vstd::prelude::*;

verus! {

/// The target of a request: either a raw descriptor number or an index into
/// the table of pre-registered files. Resolving a registered index
/// additionally sets the fixed-file flag bit, marking the alternate
/// addressing mode.
#[derive(Clone, Copy, PartialEq, Eq, Structural, Debug)]
pub enum Target {
    Fd(i32),
    Fixed(u32),
}

/// The fixed-file flag bit of the descriptor's flags byte: the bit the
/// [`Flags::fixed_file`](crate::squeue::Flags::fixed_file) modifier names.
pub open spec fn fixed_file_bit() -> u8 {
    1u8 << sys::IOSQE_FIXED_FILE_BIT
}

/// How a target reference is resolved into descriptor fields: a raw
/// descriptor is stored directly; a registered index is stored in the same
/// field and the fixed-file flag bit is additionally OR'd into the
/// descriptor's flags byte, marking the alternate addressing mode. Every
/// operation kind applies this identically.
pub open spec fn spec_assign_target(e: Entry, t: Target) -> Entry {
    match t {
        Target::Fd(fd) => Entry { fd, ..e },
        Target::Fixed(idx) => Entry {
            fd: idx as i32,
            flags: e.flags | fixed_file_bit(),
            ..e
        },
    }
}

/// Target-reference tagging: building with a registered-index target always
/// sets the fixed-file flag bit in addition to the index field, while
/// building with a raw-descriptor target leaves the descriptor's flags byte
/// untouched and so never sets that bit.
pub proof fn lemma_target_tagging(e: Entry, t: Target)
    ensures
        t is Fixed ==> spec_assign_target(e, t).flags & fixed_file_bit() != 0,
        t is Fd ==> spec_assign_target(e, t).flags == e.flags,
{
    let f = e.flags;
    assert((f | (1u8 << sys::IOSQE_FIXED_FILE_BIT)) & (1u8 << sys::IOSQE_FIXED_FILE_BIT)
        != 0) by (bit_vector);
}

/// Send a message on a socket.
pub struct Send {
    sqe: Entry,
}

impl View for Send {
    type V = Entry;

    closed spec fn view(&self) -> Entry {
        self.sqe
    }
}

impl Send {
    /// The operation code this builder stamps.
    pub fn code() -> (r: u8)
        ensures
            r == sys::IORING_OP_SEND,
    {
        sys::IORING_OP_SEND
    }

    /// Begin building on a descriptor: stamp the operation code.
    pub fn new(entry: Entry) -> (r: Send)
        ensures
            r@ == (Entry { opcode: sys::IORING_OP_SEND, ..entry }),
    {
        Send { sqe: Entry { opcode: sys::IORING_OP_SEND, ..entry } }
    }

    /// Set the target of the request.
    pub fn fd(self, fd: Target) -> (r: Send)
        ensures
            r@ == spec_assign_target(self@, fd),
    {
        match fd {
            Target::Fd(raw) => Send { sqe: Entry { fd: raw, ..self.sqe } },
            Target::Fixed(idx) => Send {
                sqe: Entry {
                    fd: idx as i32,
                    flags: self.sqe.flags | (1u8 << sys::IOSQE_FIXED_FILE_BIT),
                    ..self.sqe
                },
            },
        }
    }

    /// Set the request's priority.
    pub fn ioprio(self, ioprio: u16) -> (r: Send)
        ensures
            r@ == (Entry { ioprio, ..self@ }),
    {
        Send { sqe: Entry { ioprio, ..self.sqe } }
    }

    /// Fold operation-specific flags into the operation-flags word.
    pub fn flags(self, flags: i32) -> (r: Send)
        ensures
            r@ == (Entry { op_flags: self@.op_flags | (flags as u32), ..self@ }),
    {
        Send { sqe: Entry { op_flags: self.sqe.op_flags | (flags as u32), ..self.sqe } }
    }

    /// Set the address of the buffer to send from.
    pub fn buf(self, buf: u64) -> (r: Send)
        ensures
            r@ == (Entry { addr: buf, ..self@ }),
    {
        Send { sqe: Entry { addr: buf, ..self.sqe } }
    }

    /// Set the number of bytes to send.
    pub fn len(self, len: u32) -> (r: Send)
        ensures
            r@ == (Entry { len, ..self@ }),
    {
        Send { sqe: Entry { len, ..self.sqe } }
    }

    /// Set the destination address, for sending from an unconnected socket:
    /// the address value of the socket-address record and its length in
    /// bytes. When set, the length must be set as well.
    pub fn dest_addr(self, addr: u64, len: u32) -> (r: Send)
        ensures
            r@ == (Entry { addr2: addr, addr_len: len, ..self@ }),
    {
        Send { sqe: Entry { addr2: addr, addr_len: len, ..self.sqe } }
    }

    /// Finish the chain: the completed descriptor, ready to push.
    pub fn build(self) -> (r: Entry)
        ensures
            r == self@,
    {
        self.sqe
    }
}

/// Receive a message from a socket.
pub struct Recv {
    sqe: Entry,
}

impl View for Recv {
    type V = Entry;

    closed spec fn view(&self) -> Entry {
        self.sqe
    }
}

impl Recv {
    /// The operation code this builder stamps.
    pub fn code() -> (r: u8)
        ensures
            r == sys::IORING_OP_RECV,
    {
        sys::IORING_OP_RECV
    }

    /// Begin building on a descriptor: stamp the operation code.
    pub fn new(entry: Entry) -> (r: Recv)
        ensures
            r@ == (Entry { opcode: sys::IORING_OP_RECV, ..entry }),
    {
        Recv { sqe: Entry { opcode: sys::IORING_OP_RECV, ..entry } }
    }

    /// Set the target of the request.
    pub fn fd(self, fd: Target) -> (r: Recv)
        ensures
            r@ == spec_assign_target(self@, fd),
    {
        match fd {
            Target::Fd(raw) => Recv { sqe: Entry { fd: raw, ..self.sqe } },
            Target::Fixed(idx) => Recv {
                sqe: Entry {
                    fd: idx as i32,
                    flags: self.sqe.flags | (1u8 << sys::IOSQE_FIXED_FILE_BIT),
                    ..self.sqe
                },
            },
        }
    }

    /// Set the request's priority.
    pub fn ioprio(self, ioprio: u16) -> (r: Recv)
        ensures
            r@ == (Entry { ioprio, ..self@ }),
    {
        Recv { sqe: Entry { ioprio, ..self.sqe } }
    }

    /// Fold operation-specific flags into the operation-flags word.
    pub fn flags(self, flags: i32) -> (r: Recv)
        ensures
            r@ == (Entry { op_flags: self@.op_flags | (flags as u32), ..self@ }),
    {
        Recv { sqe: Entry { op_flags: self.sqe.op_flags | (flags as u32), ..self.sqe } }
    }

    /// Set the address of the buffer to receive into.
    pub fn buf(self, buf: u64) -> (r: Recv)
        ensures
            r@ == (Entry { addr: buf, ..self@ }),
    {
        Recv { sqe: Entry { addr: buf, ..self.sqe } }
    }

    /// Set the number of bytes to receive.
    pub fn len(self, len: u32) -> (r: Recv)
        ensures
            r@ == (Entry { len, ..self@ }),
    {
        Recv { sqe: Entry { len, ..self.sqe } }
    }

    /// Set the buffer group to pick an automatically selected buffer from;
    /// meaningful together with the buffer-select submission flag.
    pub fn buf_group(self, grp: u16) -> (r: Recv)
        ensures
            r@ == (Entry { buf_index: grp, ..self@ }),
    {
        Recv { sqe: Entry { buf_index: grp, ..self.sqe } }
    }

    /// Finish the chain: the completed descriptor, ready to push.
    pub fn build(self) -> (r: Entry)
        ensures
            r == self@,
    {
        self.sqe
    }
}

/// Send a zerocopy message on a socket. When a destination address is set,
/// it points at the address of the target. A fixed (pre-registered) buffer
/// can optionally be used.
pub struct SendZc {
    sqe: Entry,
}

impl View for SendZc {
    type V = Entry;

    closed spec fn view(&self) -> Entry {
        self.sqe
    }
}

impl SendZc {
    /// The operation code this builder stamps.
    pub fn code() -> (r: u8)
        ensures
            r == sys::IORING_OP_SEND_ZC,
    {
        sys::IORING_OP_SEND_ZC
    }

    /// Begin building on a descriptor: stamp the operation code.
    pub fn new(entry: Entry) -> (r: SendZc)
        ensures
            r@ == (Entry { opcode: sys::IORING_OP_SEND_ZC, ..entry }),
    {
        SendZc { sqe: Entry { opcode: sys::IORING_OP_SEND_ZC, ..entry } }
    }

    /// Set the target of the request.
    pub fn fd(self, fd: Target) -> (r: SendZc)
        ensures
            r@ == spec_assign_target(self@, fd),
    {
        match fd {
            Target::Fd(raw) => SendZc { sqe: Entry { fd: raw, ..self.sqe } },
            Target::Fixed(idx) => SendZc {
                sqe: Entry {
                    fd: idx as i32,
                    flags: self.sqe.flags | (1u8 << sys::IOSQE_FIXED_FILE_BIT),
                    ..self.sqe
                },
            },
        }
    }

    /// Set the request's priority.
    pub fn ioprio(self, ioprio: u16) -> (r: SendZc)
        ensures
            r@ == (Entry { ioprio, ..self@ }),
    {
        SendZc { sqe: Entry { ioprio, ..self.sqe } }
    }

    /// Fold operation-specific flags into the operation-flags word.
    pub fn flags(self, flags: i32) -> (r: SendZc)
        ensures
            r@ == (Entry { op_flags: self@.op_flags | (flags as u32), ..self@ }),
    {
        SendZc { sqe: Entry { op_flags: self.sqe.op_flags | (flags as u32), ..self.sqe } }
    }

    /// Set the address of the buffer to send from.
    pub fn buf(self, buf: u64) -> (r: SendZc)
        ensures
            r@ == (Entry { addr: buf, ..self@ }),
    {
        SendZc { sqe: Entry { addr: buf, ..self.sqe } }
    }

    /// Set the number of bytes to send.
    pub fn len(self, len: u32) -> (r: SendZc)
        ensures
            r@ == (Entry { len, ..self@ }),
    {
        SendZc { sqe: Entry { len, ..self.sqe } }
    }

    /// Use a registered fixed buffer: `idx` names an entry of the
    /// pre-registered buffer table, and the priority field is tagged with
    /// the fixed-buffer modifier. The buffer address and length must fall
    /// within the region that entry registered.
    pub fn buf_index(self, idx: u16) -> (r: SendZc)
        ensures
            r@ == (Entry {
                buf_index: idx,
                ioprio: self@.ioprio | sys::IORING_RECVSEND_FIXED_BUF,
                ..self@
            }),
    {
        SendZc {
            sqe: Entry {
                buf_index: idx,
                ioprio: self.sqe.ioprio | sys::IORING_RECVSEND_FIXED_BUF,
                ..self.sqe
            },
        }
    }

    /// Set the destination address, for sending from an unconnected socket:
    /// the address value of the socket-address record and its length in
    /// bytes. When set, the length must be set as well.
    pub fn dest_addr(self, addr: u64, len: u32) -> (r: SendZc)
        ensures
            r@ == (Entry { addr2: addr, addr_len: len, ..self@ }),
    {
        SendZc { sqe: Entry { addr2: addr, addr_len: len, ..self.sqe } }
    }

    /// Finish the chain: the completed descriptor, ready to push.
    pub fn build(self) -> (r: Entry)
        ensures
            r == self@,
    {
        self.sqe
    }
}

} // verus!
