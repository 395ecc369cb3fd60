//! Requests, events and errors of Linux asynchronous I/O (libaio), as plain
//! values; the system calls themselves are made by the application.
use vstd::prelude::*;

verus! {

pub const IOCB_CMD_PREAD: u32 = 0;
pub const IOCB_CMD_PWRITE: u32 = 1;
pub const IOCB_CMD_FSYNC: u32 = 2;
pub const IOCB_CMD_FDSYNC: u32 = 3;
pub const IOCB_CMD_POLL: u32 = 5;
pub const IOCB_CMD_NOOP: u32 = 6;
pub const IOCB_CMD_PREADV: u32 = 7;
pub const IOCB_CMD_PWRITEV: u32 = 8;

/// Linux `errno` values, as the `libc` crate defines them for Linux.
pub const EBADF: i32 = 9;
pub const EAGAIN: i32 = 11;
pub const ENOMEM: i32 = 12;
pub const EFAULT: i32 = 14;
pub const EINVAL: i32 = 22;
pub const ENOSYS: i32 = 38;

/// A kernel AIO context handle.
#[allow(non_camel_case_types)]
pub type aio_context_t = u64;

/// The kernel's I/O control block.
#[allow(non_camel_case_types)]
#[derive(Debug, Clone, Copy, PartialEq, Eq, Structural)]
pub struct iocb {
    pub aio_data: u64,
    pub aio_key: u32,
    pub aio_rw_flags: i32,
    pub aio_lio_opcode: u16,
    pub aio_reqprio: i16,
    pub aio_fildes: u32,
    pub aio_buf: u64,
    pub aio_nbytes: u64,
    pub aio_offset: i64,
    pub aio_reserved2: i64,
    pub aio_flags: u32,
    pub aio_resfd: u32,
}

impl Default for iocb {
    /// A no-op control block on no file (descriptor `-1`): every other field
    /// zero.
    fn default() -> (b: iocb)
        ensures
            b == (iocb {
                aio_data: 0, aio_key: 0, aio_rw_flags: 0, aio_lio_opcode: IOCB_CMD_NOOP as u16, aio_reqprio: 0,
                aio_fildes: u32::MAX, aio_buf: 0, aio_nbytes: 0, aio_offset: 0, aio_reserved2: 0, aio_flags: 0,
                aio_resfd: 0,
            }),
    {
        iocb {
            aio_data: 0,
            aio_key: 0,
            aio_rw_flags: 0,
            aio_lio_opcode: IOCB_CMD_NOOP as u16,
            aio_reqprio: 0,
            aio_fildes: u32::MAX,
            aio_buf: 0,
            aio_nbytes: 0,
            aio_offset: 0,
            aio_reserved2: 0,
            aio_flags: 0,
            aio_resfd: 0,
        }
    }
}

/// The kernel's completion event.
#[allow(non_camel_case_types)]
#[derive(Debug, Clone, Copy, PartialEq, Eq, Structural)]
pub struct io_event {
    pub data: u64,
    pub obj: u64,
    pub res: i64,
    pub res2: i64,
}

impl Default for io_event {
    /// The all-zero event.
    fn default() -> (e: io_event)
        ensures
            e == (io_event { data: 0, obj: 0, res: 0, res2: 0 }),
    {
        io_event { data: 0, obj: 0, res: 0, res2: 0 }
    }
}

/// An asynchronous I/O context; zero until set up.
#[derive(Debug, Clone, Copy)]
pub struct AioContext(pub aio_context_t);

impl AioContext {
    /// A context that is not set up.
    pub fn new() -> (c: AioContext)
        ensures
            c.0 == 0,
    {
        AioContext(0)
    }

    /// Whether the context is set up (non-zero); invalid may also mean not
    /// initialized.
    pub fn is_valid(self) -> (b: bool)
        ensures
            b == (self.0 != 0),
    {
        self.0 != 0
    }

    /// The handle.
    pub fn inner(self) -> (h: aio_context_t)
        ensures
            h == self.0,
    {
        self.0
    }

    /// Mutable access to the handle.
    pub fn inner_mut(&mut self) -> (h: &mut aio_context_t)
        ensures
            *h == old(self).0,
            final(self).0 == *final(h),
    {
        &mut self.0
    }
}

/// The operation of a request.
#[derive(Debug, Clone, Copy, PartialEq, Eq, Structural)]
pub enum IoCmd {
    Pread,
    Pwrite,
    Fsync,
    Fdsync,
    Poll,
    Noop,
    Preadv,
    Pwritev,
}

/// The kernel's code for an operation.
pub open spec fn cmd_code(c: IoCmd) -> u32 {
    match c {
        IoCmd::Pread => IOCB_CMD_PREAD,
        IoCmd::Pwrite => IOCB_CMD_PWRITE,
        IoCmd::Fsync => IOCB_CMD_FSYNC,
        IoCmd::Fdsync => IOCB_CMD_FDSYNC,
        IoCmd::Poll => IOCB_CMD_POLL,
        IoCmd::Noop => IOCB_CMD_NOOP,
        IoCmd::Preadv => IOCB_CMD_PREADV,
        IoCmd::Pwritev => IOCB_CMD_PWRITEV,
    }
}

impl IoCmd {
    /// The kernel's code for the operation, as a control block holds it.
    pub fn to_ctype(self) -> (c: u16)
        ensures
            c == cmd_code(self),
    {
        match self {
            IoCmd::Pread => IOCB_CMD_PREAD as u16,
            IoCmd::Pwrite => IOCB_CMD_PWRITE as u16,
            IoCmd::Fsync => IOCB_CMD_FSYNC as u16,
            IoCmd::Fdsync => IOCB_CMD_FDSYNC as u16,
            IoCmd::Poll => IOCB_CMD_POLL as u16,
            IoCmd::Noop => IOCB_CMD_NOOP as u16,
            IoCmd::Preadv => IOCB_CMD_PREADV as u16,
            IoCmd::Pwritev => IOCB_CMD_PWRITEV as u16,
        }
    }
}

/// An error returned by the AIO system calls.
#[derive(Debug)]
pub enum AioSysError {
    Unkwn(isize),
    Eagain,
    Efault,
    Einval,
    Enosys,
    Enomem,
    Ebadf,
}

/// Whether `i` is one of the error codes the AIO calls report.
pub open spec fn is_error_code(i: i32) -> bool {
    i == EAGAIN || i == EFAULT || i == EINVAL || i == ENOSYS || i == ENOMEM || i == EBADF
}

impl AioSysError {
    /// Whether a value returned by an AIO call is one of the error codes.
    pub fn is_error(i: i32) -> (b: bool)
        ensures
            b == is_error_code(i),
    {
        i == EAGAIN || i == EFAULT || i == EINVAL || i == ENOSYS || i == ENOMEM || i == EBADF
    }

    /// The outcome of an AIO call that returned `ret`: the error when `ret`
    /// is one of the error codes, the value otherwise.
    pub fn check_result(ret: i32) -> (r: Result<i32, AioSysError>)
        ensures
            is_error_code(ret) ==> r == Err::<i32, AioSysError>(error_of(ret)),
            !is_error_code(ret) ==> r == Ok::<i32, AioSysError>(ret),
    {
        if AioSysError::is_error(ret) {
            Err(AioSysError::from(ret))
        } else {
            Ok(ret)
        }
    }

    /// The numeric value of the error: its errno, or the unknown code.
    pub fn code(&self) -> (c: isize)
        ensures
            c == error_code(*self),
    {
        match self {
            AioSysError::Unkwn(e) => *e,
            AioSysError::Eagain => EAGAIN as isize,
            AioSysError::Efault => EFAULT as isize,
            AioSysError::Einval => EINVAL as isize,
            AioSysError::Enosys => ENOSYS as isize,
            AioSysError::Enomem => ENOMEM as isize,
            AioSysError::Ebadf => EBADF as isize,
        }
    }

    /// The message of the error.
    pub fn message(&self) -> (m: &'static str)
        ensures
            m@ == error_message(*self),
    {
        match self {
            AioSysError::Eagain => "Specified number of events exceeds limit of available events.",
            AioSysError::Efault => "Invalid pointer passed for context.",
            AioSysError::Einval => "Context is not initialized.",
            AioSysError::Enosys => "Setup is not implemented on this architecture.",
            AioSysError::Enomem => "Insufficient kernel resources available.",
            AioSysError::Ebadf => "Bad file descriptor given.",
            AioSysError::Unkwn(_) => "Unknown error",
        }
    }
}

/// The numeric value of an error.
pub open spec fn error_code(e: AioSysError) -> isize {
    match e {
        AioSysError::Unkwn(c) => c,
        AioSysError::Eagain => EAGAIN as isize,
        AioSysError::Efault => EFAULT as isize,
        AioSysError::Einval => EINVAL as isize,
        AioSysError::Enosys => ENOSYS as isize,
        AioSysError::Enomem => ENOMEM as isize,
        AioSysError::Ebadf => EBADF as isize,
    }
}

/// The message of an error.
pub open spec fn error_message(e: AioSysError) -> Seq<char> {
    match e {
        AioSysError::Eagain => "Specified number of events exceeds limit of available events."@,
        AioSysError::Efault => "Invalid pointer passed for context."@,
        AioSysError::Einval => "Context is not initialized."@,
        AioSysError::Enosys => "Setup is not implemented on this architecture."@,
        AioSysError::Enomem => "Insufficient kernel resources available."@,
        AioSysError::Ebadf => "Bad file descriptor given."@,
        AioSysError::Unkwn(_) => "Unknown error"@,
    }
}

/// The error for a code: the matching errno variant, or `Unkwn` with the code.
pub open spec fn error_of(e: i32) -> AioSysError {
    if e == EAGAIN { AioSysError::Eagain }
    else if e == EFAULT { AioSysError::Efault }
    else if e == EINVAL { AioSysError::Einval }
    else if e == ENOSYS { AioSysError::Enosys }
    else if e == ENOMEM { AioSysError::Enomem }
    else if e == EBADF { AioSysError::Ebadf }
    else { AioSysError::Unkwn(e as isize) }
}

impl From<i32> for AioSysError {
    /// Transforms a code returned by an AIO call into its error.
    fn from(e: i32) -> (r: AioSysError) {
        if e == EAGAIN { AioSysError::Eagain }
        else if e == EFAULT { AioSysError::Efault }
        else if e == EINVAL { AioSysError::Einval }
        else if e == ENOSYS { AioSysError::Enosys }
        else if e == ENOMEM { AioSysError::Enomem }
        else if e == EBADF { AioSysError::Ebadf }
        else { AioSysError::Unkwn(e as isize) }
    }
}

impl vstd::std_specs::convert::FromSpecImpl<i32> for AioSysError {
    open spec fn obeys_from_spec() -> bool {
        true
    }

    open spec fn from_spec(e: i32) -> AioSysError {
        error_of(e)
    }
}

/// Builder for an asynchronous I/O request.
#[derive(Debug, Clone, Copy)]
pub struct AioRequest(pub iocb);

impl AioRequest {
    /// A no-op request (see `iocb::default`).
    pub fn new() -> (r: AioRequest)
        ensures
            r.0 == (iocb {
                aio_data: 0, aio_key: 0, aio_rw_flags: 0, aio_lio_opcode: IOCB_CMD_NOOP as u16, aio_reqprio: 0,
                aio_fildes: u32::MAX, aio_buf: 0, aio_nbytes: 0, aio_offset: 0, aio_reserved2: 0, aio_flags: 0,
                aio_resfd: 0,
            }),
    {
        AioRequest(iocb::default())
    }

    /// Sets the file descriptor; descriptors are not negative.
    pub fn add_fd(self, fd: i32) -> (r: Self)
        requires
            fd >= 0,
        ensures
            r.0 == (iocb { aio_fildes: fd as u32, ..self.0 }),
    {
        let mut s = self;
        s.0.aio_fildes = fd as u32;
        s
    }

    /// Sets the operation.
    pub fn add_opcode(self, opcode: IoCmd) -> (r: Self)
        ensures
            r.0 == (iocb { aio_lio_opcode: cmd_code(opcode) as u16, ..self.0 }),
    {
        let mut s = self;
        s.0.aio_lio_opcode = opcode.to_ctype();
        s
    }

    /// Sets the buffer, source or destination depending on the operation, by
    /// its address and length.
    pub fn add_buffer_at(self, address: u64, length: u64) -> (r: Self)
        ensures
            r.0 == (iocb { aio_buf: address, aio_nbytes: length, ..self.0 }),
    {
        let mut s = self;
        s.0.aio_buf = address;
        s.0.aio_nbytes = length;
        s
    }

    /// Sets the file offset of the operation. Default is zero.
    pub fn add_offset(self, offset: isize) -> (r: Self)
        ensures
            r.0 == (iocb { aio_offset: offset as i64, ..self.0 }),
    {
        let mut s = self;
        s.0.aio_offset = offset as i64;
        s
    }

    /// Sets the tag of the request, returned with its completion event.
    pub fn add_tag(self, tag: u64) -> (r: Self)
        ensures
            r.0 == (iocb { aio_data: tag, ..self.0 }),
    {
        let mut s = self;
        s.0.aio_data = tag;
        s
    }

    /// The control block.
    pub fn inner(self) -> (b: iocb)
        ensures
            b == self.0,
    {
        self.0
    }

    /// Mutable access to the control block.
    pub fn inner_mut(&mut self) -> (b: &mut iocb)
        ensures
            *b == old(self).0,
            final(self).0 == *final(b),
    {
        &mut self.0
    }
}

/// A completed event returned from an asynchronous I/O request: the tag of
/// the originating request, the originating context, and the result codes.
#[derive(Debug, Clone, Copy)]
pub struct AioEvent(pub io_event);

impl AioEvent {
    /// An all-zero event, to be filled by the kernel.
    pub fn new() -> (e: AioEvent)
        ensures
            e.0 == (io_event { data: 0, obj: 0, res: 0, res2: 0 }),
    {
        AioEvent(io_event::default())
    }

    /// The tag of the completed request.
    pub fn get_tag(self) -> (t: u64)
        ensures
            t == self.0.data,
    {
        self.0.data
    }

    /// The event.
    pub fn inner(self) -> (e: io_event)
        ensures
            e == self.0,
    {
        self.0
    }

    /// Mutable access to the event.
    pub fn inner_mut(&mut self) -> (e: &mut io_event)
        ensures
            *e == old(self).0,
            final(self).0 == *final(e),
    {
        &mut self.0
    }
}

impl PartialEq<AioRequest> for AioEvent {
    /// An event equals the request whose tag it carries back: the event's
    /// data tag is the request's.
    fn eq(&self, other: &AioRequest) -> (b: bool) {
        self.0.data == other.0.aio_data
    }
}

impl vstd::std_specs::cmp::PartialEqSpecImpl<AioRequest> for AioEvent {
    open spec fn obeys_eq_spec() -> bool {
        true
    }

    open spec fn eq_spec(&self, other: &AioRequest) -> bool {
        self.0.data == other.0.aio_data
    }
}

} // verus!
