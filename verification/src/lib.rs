//! Building and reading the inter-process messages of the 3DS kernel.
//!
//! A request is a header word, then normal parameters, which reach the other process as they are,
//! then translated parameters, which the kernel acts on: it moves handles, copies buffers into the
//! receiver's static buffers and maps buffers into its memory. A reply has the same form, with a
//! result code for its first normal parameter.
//!
//! Nothing here touches the kernel: a command buffer is an array of words, and a buffer that a
//! message names is an address and a length.

pub mod command;
pub mod descriptor;
pub mod header;
pub mod laws;
pub mod parse;
pub mod receive;
pub mod service;
pub mod translate;

use vstd::prelude::*;

pub use descriptor::{
    bytes_to_words, handle_descriptor, read_buffer_descriptor, read_write_buffer_descriptor,
    static_buffer_descriptor, write_buffer_descriptor,
};
pub use header::IPCHeader;
pub use receive::StaticReceiveParams;
pub use translate::TranslateParams;

verus! {

/// The number of words in a thread's command buffer.
pub const IPC_CMDBUF_WORDS: usize = 64;

/// A kernel object, as a process names it.
pub type Handle = u32;

} // verus!
