//! The I/O engines a writer can use.
use vstd::prelude::*;
use crate::aio::AioContext;

verus! {

/// The context of an io_uring engine.
pub struct IoUringContext();

/// The engine ("nib") of a quill: plain POSIX calls, Linux AIO with its
/// context, or io_uring with its context.
pub enum Nib {
    Posix,
    AIO(AioContext),
    IOUring(IoUringContext),
}

/// A writer and the engine it writes with.
pub struct Quill {
    pub nib: Nib,
}

} // verus!
