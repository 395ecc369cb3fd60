use super_massive_io::aio::{
    io_event, iocb, AioContext, AioEvent, AioRequest, AioSysError, IoCmd, EAGAIN, EBADF, EFAULT, EINVAL, ENOMEM,
    ENOSYS, IOCB_CMD_NOOP, IOCB_CMD_PWRITE,
};
use std::mem::{align_of, size_of};

#[test]
fn iocb() {
    assert_eq!(size_of::<iocb>(), 64usize, "Size of: iocb");
    assert_eq!(align_of::<iocb>(), 8usize, "Alignment of iocb");
}

#[test]
fn io_event() {
    assert_eq!(size_of::<io_event>(), 32usize, "Size of: io_event");
    assert_eq!(align_of::<io_event>(), 8usize, "Alignment of io_event");
}

#[test]
fn errno_values_match_libc() {
    assert_eq!(EAGAIN, libc::EAGAIN);
    assert_eq!(EFAULT, libc::EFAULT);
    assert_eq!(EINVAL, libc::EINVAL);
    assert_eq!(ENOSYS, libc::ENOSYS);
    assert_eq!(ENOMEM, libc::ENOMEM);
    assert_eq!(EBADF, libc::EBADF);
}

#[test]
fn errors_from_codes() {
    assert!(AioSysError::is_error(libc::EINVAL));
    assert!(!AioSysError::is_error(0));
    assert!(!AioSysError::is_error(-libc::EINVAL));
    assert!(matches!(AioSysError::from(libc::EAGAIN), AioSysError::Eagain));
    assert!(matches!(AioSysError::from(libc::EBADF), AioSysError::Ebadf));
    assert!(matches!(AioSysError::from(5), AioSysError::Unkwn(5)));
    assert_eq!(AioSysError::from(libc::ENOMEM).message(), "Insufficient kernel resources available.");
    assert_eq!(AioSysError::from(77).code(), 77);
}

#[test]
fn request_builder() {
    let req = AioRequest::new();
    assert_eq!(req.inner().aio_lio_opcode, IOCB_CMD_NOOP as u16);
    assert_eq!(req.inner().aio_fildes, u32::MAX);
    let req = req.add_fd(7).add_offset(512).add_tag(0xAAAA).add_opcode(IoCmd::Pwrite).add_buffer_at(0x1000, 512);
    let b = req.inner();
    assert_eq!((b.aio_fildes, b.aio_offset, b.aio_data, b.aio_lio_opcode), (7, 512, 0xAAAA, IOCB_CMD_PWRITE as u16));
    assert_eq!((b.aio_buf, b.aio_nbytes), (0x1000, 512));
    let mut event = AioEvent::new();
    assert_eq!(event.get_tag(), 0);
    event.inner_mut().obj = 0xAAAA;
    event.inner_mut().data = 0xBBBB;
    assert!(!(event == req));
    assert_eq!(event.get_tag(), 0xBBBB);
    event.inner_mut().data = 0xAAAA;
    event.inner_mut().obj = 0;
    assert!(event == req);
    let mut ctx = AioContext::new();
    assert!(!ctx.is_valid());
    *ctx.inner_mut() = 42;
    assert!(ctx.is_valid());
    assert_eq!(ctx.inner(), 42);
}

#[test]
fn call_results_are_classified_by_code() {
    assert!(matches!(AioSysError::check_result(0), Ok(0)));
    assert!(matches!(AioSysError::check_result(3), Ok(3)));
    assert!(matches!(AioSysError::check_result(-22), Ok(-22)));
    assert!(matches!(AioSysError::check_result(EAGAIN), Err(AioSysError::Eagain)));
    assert!(matches!(AioSysError::check_result(EBADF), Err(AioSysError::Ebadf)));
    assert!(matches!(AioSysError::check_result(EINVAL), Err(AioSysError::Einval)));
}
