use completeio::addr::{AddrStorage, SockAddr};
use completeio::attacher::Attacher;
use completeio::buf::{AsIoSlices, BufWrapper, BufWrapperMut, IntoInner, IoBuf, IoBufMut};
use completeio::driver::iour::{files_setup, FdOrFixed, FilesSetup, FixedFd, OpCode, SqOp};
use completeio::driver::kqueue::op::{can_block, finish, Attempt, Call, CallOutcome, Next};
use completeio::driver::kqueue::{Event, EventFilter, Fd};
use completeio::driver::unix::op::{
    Accept, Connect, Read, ReadAt, Recv, RecvMsgImpl, RecvVectoredImpl, Send, SendMsgImpl,
    SendVectoredImpl, Sync, Write, WriteAt,
};
use completeio::driver::unix::{IntoFdOrFixed, IntoRawFd};
use completeio::driver::{iour, kqueue, Entry};
use completeio::error::{ErrorKind, Extension, IoError, IoResult};
use completeio::op::{map_addr, UpdateBufferLen};

#[derive(Debug, PartialEq)]
struct Room {
    capacity: usize,
    init: usize,
}

impl IoBuf for Room {
    fn buf_len(&self) -> usize {
        self.init
    }
}

impl IoBufMut for Room {
    fn buf_capacity(&self) -> usize {
        self.capacity
    }

    fn set_buf_init(&mut self, len: usize) {
        self.init = len;
    }
}

struct Many(usize);

impl AsIoSlices for Many {
    fn io_slices(&self) -> usize {
        self.0
    }
}

struct File(i32);

impl IntoRawFd for File {
    fn into_raw_fd(self) -> i32 {
        self.0
    }
}

fn room(capacity: usize, init: usize) -> Room {
    Room { capacity, init }
}

fn addr(len: u32) -> SockAddr {
    SockAddr::new(AddrStorage::new(), len)
}

const FD: Fd = Fd { raw_fd: 5 };
const RING_FD: iour::Fd = iour::Fd { raw_fd: 5 };

fn call_of<A: Attempt>(op: &mut A) -> Call {
    match op.prepare() {
        Next::Call(call) => call,
        Next::Done(_) => panic!("there is a call to make"),
    }
}

#[test]
fn kqueue_calls_of_operations() {
    assert_eq!(call_of(&mut Read::new(FD, room(8, 0))), Call::Read { fd: 5, len: 8 });
    assert_eq!(
        call_of(&mut ReadAt::new(FD, 70, room(8, 0))),
        Call::Pread { fd: 5, len: 8, offset: 70 }
    );
    assert_eq!(call_of(&mut Write::new(FD, room(8, 3))), Call::Write { fd: 5, len: 3 });
    assert_eq!(
        call_of(&mut WriteAt::new(FD, 71, room(8, 3))),
        Call::Pwrite { fd: 5, len: 3, offset: 71 }
    );
    assert_eq!(call_of(&mut Sync::new(FD, true)), Call::Fsync { fd: 5, datasync: true });
    assert_eq!(call_of(&mut Accept::new(FD)), Call::Accept { fd: 5, addr_len: 128 });
    assert_eq!(call_of(&mut Recv::new(FD, room(8, 0))), Call::Recv { fd: 5, len: 8 });
    assert_eq!(call_of(&mut RecvVectoredImpl::new(FD, Many(2))), Call::Readv { fd: 5, count: 2 });
    assert_eq!(call_of(&mut Send::new(FD, room(8, 4))), Call::Send { fd: 5, len: 4 });
    assert_eq!(call_of(&mut SendVectoredImpl::new(FD, Many(3))), Call::Writev { fd: 5, count: 3 });
    assert_eq!(
        call_of(&mut kqueue::op::RecvFrom::new(FD, room(8, 0))),
        Call::RecvFrom { fd: 5, len: 8, addr_len: 128 }
    );
    assert_eq!(
        call_of(&mut kqueue::op::SendTo::new(FD, room(8, 2), addr(16))),
        Call::SendTo { fd: 5, len: 2, addr_len: 16 }
    );
    assert_eq!(call_of(&mut Fd { raw_fd: 6 }), Call::Close { fd: 6 });
}

#[test]
fn kqueue_connecting_takes_two_attempts() {
    let mut op = Connect::new(FD, addr(16));
    let call = call_of(&mut op);
    assert_eq!(call, Call::Connect { fd: 5, addr_len: 16 });
    assert_eq!(finish(call, CallOutcome::WouldBlock), None);
    let call = call_of(&mut op);
    assert_eq!(call, Call::SocketError { fd: 5 });
    assert_eq!(finish(call, CallOutcome::Returned(0)), Some(Ok(0)));
    assert_eq!(finish(call, CallOutcome::Returned(111)), Some(Err(IoError::Os(111))));
    assert_eq!(finish(call, CallOutcome::Failed(9)), Some(Err(IoError::Os(9))));
    assert_eq!(call_of(&mut op), call);
    assert_eq!(op.filter(), Some(EventFilter::Write(5)));
    assert_eq!(op.as_event(3), Event::new(EventFilter::Write(5), 3));
    assert_eq!(op.on_connect(Err(IoError::Os(111))), Err(IoError::Os(111)));
    assert_eq!(Connect::new(FD, addr(16)).on_connect(Ok(0)), Ok(()));
}

#[test]
fn kqueue_outcomes_of_calls() {
    let read = Call::Read { fd: 1, len: 4 };
    assert_eq!(finish(read, CallOutcome::Returned(3)), Some(Ok(3)));
    assert_eq!(finish(read, CallOutcome::WouldBlock), None);
    assert_eq!(finish(read, CallOutcome::Failed(5)), Some(Err(IoError::Os(5))));
    assert_eq!(Read::new(FD, room(1, 0)).as_event(2), Event::new(EventFilter::Read(5), 2));
    assert_eq!(Sync::new(FD, false).filter(), None);
    assert!(can_block(read));
    assert!(can_block(Call::SendMsg { fd: 0 }));
    assert!(!can_block(Call::Read { fd: -1, len: 4 }));
    assert!(!can_block(Call::Fsync { fd: 1, datasync: false }));
    assert!(!can_block(Call::Close { fd: 1 }));
    assert!(!can_block(Call::SocketError { fd: 1 }));
}

#[test]
fn kqueue_repeated_attempts_are_the_same() {
    let mut op = ReadAt::new(FD, 70, room(8, 0));
    let first = call_of(&mut op);
    assert_eq!(call_of(&mut op), first);
    assert_eq!(op.offset, 70);
    let mut op = Accept::new(FD);
    let first = call_of(&mut op);
    assert_eq!(call_of(&mut op), first);
    assert_eq!(op.addr_len, 128);
}

#[test]
fn kqueue_messages_are_set_up_once() {
    let mut op = RecvMsgImpl::new(FD, Many(2));
    assert_eq!(op.msg.name_len, 0);
    assert_eq!(call_of(&mut op), Call::RecvMsg { fd: 5 });
    assert_eq!((op.msg.name_len, op.msg.iov_len), (128, 2));
    op.msg.name_len = 16;
    assert_eq!(call_of(&mut op), Call::RecvMsg { fd: 5 });
    assert_eq!(op.msg.name_len, 16);
    let (buffers, from) = op.into_inner();
    assert_eq!(buffers.0, 2);
    assert_eq!(from.len(), 16);
    let mut op = SendMsgImpl::new(FD, Many(3), addr(20));
    assert_eq!(call_of(&mut op), Call::SendMsg { fd: 5 });
    assert_eq!((op.msg.name_len, op.msg.iov_len), (20, 3));
    assert_eq!(op.into_inner().0, 3);
}

#[test]
fn kqueue_closing_twice_is_an_error() {
    let mut file = Some(File(8));
    assert_eq!(call_of(&mut file), Call::Close { fd: 8 });
    assert!(file.is_none());
    match file.prepare() {
        Next::Done(Err(error)) => {
            assert_eq!(error, IoError::AlreadyClosed);
            assert_eq!(error.kind(), Some(ErrorKind::InvalidInput));
            assert_eq!(error.message(), Some("Value is None. File descriptor is already closed?"));
            assert_eq!(error.raw_os_error(), None);
        }
        _ => panic!("it is closed already"),
    }
}

#[test]
fn iour_requests_of_operations() {
    let fd = FdOrFixed::Fd(RING_FD);
    let fixed = FdOrFixed::Fixed(FixedFd { offset: 9 });
    assert_eq!(
        Read::new(RING_FD, room(8, 0)).create_entry(),
        SqOp::Read { fd, len: 8, offset: 0 }
    );
    assert_eq!(
        ReadAt::new(FixedFd::from_offset(9), 70, room(8, 0)).create_entry(),
        SqOp::Read { fd: fixed, len: 8, offset: 70 }
    );
    assert_eq!(
        Read::new(RING_FD, room(0x1_0000_0005, 0)).create_entry(),
        SqOp::Read { fd, len: 5, offset: 0 }
    );
    assert_eq!(
        Write::new(RING_FD, room(8, 2)).create_entry(),
        SqOp::Write { fd, len: 2, offset: 0 }
    );
    assert_eq!(
        WriteAt::new(RING_FD, 71, room(8, 2)).create_entry(),
        SqOp::Write { fd, len: 2, offset: 71 }
    );
    assert_eq!(Sync::new(RING_FD, true).create_entry(), SqOp::Fsync { fd, datasync: true });
    assert_eq!(Accept::new(RING_FD).create_entry(), SqOp::Accept { fd });
    assert_eq!(
        Connect::new(RING_FD, addr(28)).create_entry(),
        SqOp::Connect { fd, addr_len: 28 }
    );
    assert_eq!(Recv::new(RING_FD, room(8, 0)).create_entry(), SqOp::Recv { fd, len: 8 });
    assert_eq!(
        RecvVectoredImpl::new(RING_FD, Many(2)).create_entry(),
        SqOp::Readv { fd, count: 2 }
    );
    assert_eq!(Send::new(RING_FD, room(8, 3)).create_entry(), SqOp::Send { fd, len: 3 });
    assert_eq!(
        SendVectoredImpl::new(RING_FD, Many(2)).create_entry(),
        SqOp::Writev { fd, count: 2 }
    );
    let mut op = iour::op::RecvFrom::new(RING_FD, room(8, 0));
    assert_eq!(op.create_entry(), SqOp::RecvMsg { fd });
    assert_eq!(op.inner.msg.iov_len, 1);
    assert_eq!(op.inner.addr.bytes, vec![0; 128]);
    let (buffer, from) = op.into_inner();
    assert_eq!(buffer, room(8, 0));
    assert_eq!(from.len(), 128);
    let mut op = iour::op::SendTo::new(RING_FD, room(8, 3), addr(16));
    assert_eq!(op.create_entry(), SqOp::SendMsg { fd });
    assert_eq!(op.inner.msg.name_len, 16);
    assert_eq!(op.into_inner(), room(8, 3));
    assert_eq!(iour::Fd { raw_fd: 6 }.create_entry(), SqOp::Close { raw_fd: 6 });
    let mut file = Some(File(7));
    assert_eq!(OpCode::create_entry(&mut file), SqOp::Close { raw_fd: 7 });
    assert!(file.is_none());
}

#[test]
fn iour_setting_up_files() {
    assert!(matches!(files_setup(0, true), FilesSetup::Nothing));
    assert!(matches!(files_setup(3, true), FilesSetup::Sparse(3)));
    match files_setup(3, false) {
        FilesSetup::Explicit(files) => assert_eq!(files, vec![-1, -1, -1]),
        _ => panic!("empty places cannot be asked for"),
    }
}

#[test]
fn descriptors_for_either_kind() {
    assert_eq!(IntoFdOrFixed::into(FD), FD);
    assert_eq!(IntoFdOrFixed::into(RING_FD), FdOrFixed::Fd(RING_FD));
    let fixed = FixedFd::from_offset(3);
    assert_eq!(IntoFdOrFixed::into(fixed), FdOrFixed::Fixed(fixed));
    assert_eq!(fixed.as_offset(), 3);
}

#[test]
fn accepted_sockets() {
    let op = Accept::try_new(FD, 2, 1, None).unwrap();
    let (socket, from) = op.on_accept(Ok(9), Ok(())).unwrap();
    assert_eq!(socket, 9);
    assert_eq!(from.len(), 128);
    assert_eq!(
        Accept::new(FD).on_accept(Err(IoError::Os(4)), Ok(())).unwrap_err(),
        IoError::Os(4)
    );
    assert_eq!(
        Accept::new(FD).on_accept(Ok(9), Err(IoError::Os(25))).unwrap_err(),
        IoError::Os(25)
    );
    assert_eq!(Accept::new(FD).into_addr().len(), 128);
}

#[test]
fn buffers_follow_results() {
    let (res, buffer) = (Ok(3), room(8, 0)).update_buffer_len();
    assert_eq!(res, Ok(3));
    assert_eq!(buffer, room(8, 3));
    let failed: IoResult<usize> = Err(IoError::Os(5));
    let (res, buffer) = (failed, room(8, 1)).update_buffer_len();
    assert_eq!(res, Err(IoError::Os(5)));
    assert_eq!(buffer, room(8, 1));
    let (res, buffer) = (Ok((4, "from")), BufWrapperMut::new(room(8, 0))).update_buffer_len();
    assert_eq!(res, Ok((4, "from")));
    assert_eq!(buffer.into_inner(), room(8, 4));
    assert_eq!(BufWrapper::new(room(2, 1)).io_slices(), 1);
}

#[test]
fn addresses_of_received_messages() {
    let received: (IoResult<usize>, (Room, AddrStorage, u32)) =
        (Ok(6), (room(8, 0), AddrStorage::new(), 16));
    let (res, buffer) = map_addr(received);
    let (n, from) = res.unwrap();
    assert_eq!((n, from.len()), (6, 16));
    assert_eq!(buffer, room(8, 0));
    let failed: (IoResult<usize>, (Room, AddrStorage, u32)) =
        (Err(IoError::Os(5)), (room(8, 0), AddrStorage::new(), 16));
    assert_eq!(map_addr(failed).0.unwrap_err(), IoError::Os(5));
}

#[test]
fn attached_once() {
    let mut attacher = Attacher::new();
    assert_eq!(attacher.attached(), None);
    assert_eq!(attacher.attach(Err(IoError::Os(9))), Err(IoError::Os(9)));
    assert_eq!(attacher.attached(), None);
    assert_eq!(attacher.attach(Ok(4)), Ok(4));
    assert_eq!(attacher.attach(Ok(5)), Ok(4));
    assert_eq!(attacher.attach(Err(IoError::Os(9))), Ok(4));
    assert_eq!(attacher.attached(), Some(4));
}

#[test]
fn entries_and_errors() {
    let entry = Entry::new(7, Err(IoError::Os(2)));
    assert_eq!(entry.user_data(), 7);
    assert_eq!(entry.into_result(), Err(IoError::Os(2)));
    assert_eq!(IoError::Os(2).raw_os_error(), Some(2));
    assert_eq!(IoError::Os(2).kind(), None);
    assert_eq!(IoError::Os(2).message(), None);
    let missing = IoError::MissingExtension(Extension::ConnectEx);
    assert_eq!(missing.kind(), Some(ErrorKind::Unsupported));
    assert_eq!(missing.message(), Some("cannot retrieve ConnectEx"));
    let missing = IoError::MissingExtension(Extension::AcceptEx);
    assert_eq!(missing.message(), Some("cannot retrieve AcceptEx"));
    let missing = IoError::MissingExtension(Extension::GetAcceptExSockAddrs);
    assert_eq!(missing.message(), Some("cannot retrieve GetAcceptExSockAddrs"));
    assert_eq!(IoError::Cancelled.kind(), Some(ErrorKind::Other));
    assert_eq!(IoError::Cancelled.message(), Some("operation was cancelled"));
}
