//! Kernel ABI constants shared with the asynchronous I/O facility: operation
//! codes, descriptor flag bits, and the bits of the shared ring's flags word.

use vstd::prelude::*;

verus! {

// Bit positions of the per-descriptor submission flags.
pub const IOSQE_FIXED_FILE_BIT: u8 = 0;
pub const IOSQE_IO_DRAIN_BIT: u8 = 1;
pub const IOSQE_IO_LINK_BIT: u8 = 2;
pub const IOSQE_IO_HARDLINK_BIT: u8 = 3;
pub const IOSQE_ASYNC_BIT: u8 = 4;
pub const IOSQE_BUFFER_SELECT_BIT: u8 = 5;
pub const IOSQE_CQE_SKIP_SUCCESS_BIT: u8 = 6;

// Operation codes.
pub const IORING_OP_SEND: u8 = 26;
pub const IORING_OP_RECV: u8 = 27;
pub const IORING_OP_SEND_ZC: u8 = 47;

// Bits of the shared ring's flags word, written by the kernel.
pub const IORING_SQ_NEED_WAKEUP: u32 = 1;
pub const IORING_SQ_CQ_OVERFLOW: u32 = 2;
pub const IORING_SQ_TASKRUN: u32 = 4;

// Ring-creation flag selecting the extended descriptor stride.
pub const IORING_SETUP_SQE128: u32 = 1024;

// Per-operation modifier: the buffer is a registered fixed buffer.
pub const IORING_RECVSEND_FIXED_BUF: u16 = 4;

} // verus!
