use std::collections::VecDeque;

use completeio::addr::{AddrStorage, SockAddr};
use completeio::buf::{AsIoSlices, IntoInner, IoBuf, IoBufMut};
use completeio::driver::attempts::TIMER_PENDING;
use completeio::driver::iocp::op::{
    close_raw_fd, close_result, finish, get_sockopt_error, require_extension, take_to_close, Accept,
    AcceptSocketOpts, Call, Close, Connect, ConnectNamedPipe, IntoRawFd, Read, ReadAt, Recv, RecvFrom,
    RecvVectoredImpl, Send, SendTo, SendVectoredImpl, Sync, Write, WriteAt, INVALID_SOCKET,
};
use completeio::driver::iocp::status::{
    ntstatus_from_win32, post_driver_raw, winapi_result, ERROR_HANDLE_EOF, ERROR_IO_INCOMPLETE,
    ERROR_IO_PENDING, ERROR_NO_DATA, ERROR_PIPE_CONNECTED, ERROR_SEVERITY_ERROR, FACILITY_NTWIN32_BITS,
    STATUS_PENDING, STATUS_SUCCESS, WSAENOTSOCK,
};
use completeio::driver::iocp::{
    Completion, Driver, Fd, OpCode, Overlapped, PollRequest, INFINITE, INVALID_FD, NOTIFICATION_MODES,
};
use completeio::driver::{CompleteIo, Entry, OpObject, Operation};
use completeio::error::{CallError, ErrorKind, Extension, IoError, IoResult};
use completeio::poll::Poll;
use completeio::time::Duration;
use windows_sys::Win32::Foundation;
use windows_sys::Win32::Networking::WinSock;
use windows_sys::Win32::System::{SystemServices, Threading, WindowsProgramming};

struct Scripted {
    attempt: Poll<IoResult<usize>>,
    delay: Option<Duration>,
    seen: usize,
}

impl Scripted {
    fn new(attempt: Poll<IoResult<usize>>) -> Self {
        Scripted { attempt, delay: None, seen: usize::MAX }
    }
}

impl OpCode for Scripted {
    fn operate(&mut self, user_data: usize) -> Poll<IoResult<usize>> {
        self.seen = user_data;
        self.attempt
    }

    fn timer_delay(&self) -> Duration {
        self.delay.unwrap()
    }
}

struct Room {
    capacity: usize,
    init: usize,
}

impl IoBuf for Room {
    fn buf_len(&self) -> usize {
        self.init
    }
}

impl IoBufMut for Room {
    fn buf_capacity(&self) -> usize {
        self.capacity
    }

    fn set_buf_init(&mut self, len: usize) {
        self.init = len;
    }
}

struct Many(usize);

impl AsIoSlices for Many {
    fn io_slices(&self) -> usize {
        self.0
    }
}

fn results(entries: &[Entry]) -> Vec<(usize, Result<usize, IoError>)> {
    entries.iter().map(|e| (e.user_data(), e.into_result())).collect()
}

fn completion(status: i32, dos_error: u32, transferred: u32, user_data: usize) -> Completion {
    Completion { status, dos_error, transferred, user_data }
}

fn addr(bytes: &[u8]) -> SockAddr {
    let mut storage = AddrStorage::new();
    storage.bytes[..bytes.len()].copy_from_slice(bytes);
    SockAddr::new(storage, bytes.len() as u32)
}

const FD: Fd = Fd { raw_fd: 12 };

#[test]
fn iocp_submission() {
    let mut a = Scripted::new(Poll::Ready(Ok(4)));
    let mut b = Scripted::new(Poll::Pending);
    let mut c = Scripted::new(Poll::Ready(Err(IoError::Os(5))));
    {
        let mut driver: Driver<'_, Scripted> = Driver::with(3, 0);
        let mut ops = VecDeque::from([
            OpObject::new(&mut a, 1),
            OpObject::new(&mut b, 2),
            OpObject::new(&mut c, 3),
        ]);
        driver.push_queue(&mut ops);
        assert_eq!(driver.capacity_left(), 0);
        let mut entries: Vec<Entry> = Vec::new();
        let request = driver.submit(Some(Duration::from_millis(10)), &mut entries);
        // what is output is not held back
        assert_eq!(request, PollRequest { max_entries: 3, timeout_ms: 0 });
        assert_eq!(results(&entries), vec![(1, Ok(4)), (3, Err(IoError::Os(5)))]);
        assert_eq!(driver.capacity_left(), 3);
        let answer = vec![
            completion(STATUS_SUCCESS, 0, 7, 2),
            completion(-1, ERROR_HANDLE_EOF, 9, 4),
            completion(-1, 5, 9, 5),
        ];
        assert_eq!(driver.complete_submit(Ok(answer), &mut entries), Ok(()));
        assert_eq!(
            results(&entries)[2..],
            [(2, Ok(7)), (4, Ok(0)), (5, Err(IoError::Os(5)))]
        );
    }
    assert_eq!((a.seen, b.seen, c.seen), (1, 2, 3));
}

#[test]
fn iocp_timeouts_are_expected() {
    let mut driver: Driver<'_, Scripted> = Driver::new();
    let mut entries: Vec<Entry> = Vec::new();
    assert_eq!(driver.submit(None, &mut entries), PollRequest { max_entries: 1024, timeout_ms: INFINITE });
    let ten = Some(Duration::from_millis(10));
    assert_eq!(driver.submit(ten, &mut entries), PollRequest { max_entries: 1024, timeout_ms: 10 });
    let late = CallError { code: 258, kind: ErrorKind::TimedOut };
    assert_eq!(driver.complete_submit(Err(late), &mut entries), Ok(()));
    let broken = CallError { code: 6, kind: ErrorKind::Other };
    assert_eq!(driver.complete_submit(Err(broken), &mut entries), Err(IoError::Os(6)));
    assert!(entries.is_empty());
}

#[test]
fn iocp_long_waits_are_cut() {
    let driver: Driver<'_, Scripted> = Driver::with(1, 0);
    assert_eq!(driver.poll_request(Some(Duration::zero())).timeout_ms, 0);
    assert_eq!(driver.poll_request(Some(Duration::new(1, 999_999))).timeout_ms, 1000);
    let longest: u32 = INFINITE - 1;
    assert_eq!(driver.poll_request(Some(Duration::from_millis(longest as u64))).timeout_ms, longest);
    assert_eq!(driver.poll_request(Some(Duration::from_millis(INFINITE as u64))).timeout_ms, longest);
    assert_eq!(driver.poll_request(Some(Duration::from_millis(0x1_0000_0000))).timeout_ms, longest);
    assert_eq!(driver.poll_request(None).timeout_ms, INFINITE);
}

#[test]
fn iocp_timers_and_cancellation() {
    let mut timer = Scripted::new(Poll::Ready(Ok(TIMER_PENDING)));
    timer.delay = Some(Duration::zero());
    let mut gone = Scripted::new(Poll::Ready(Ok(1)));
    {
        let mut driver: Driver<'_, Scripted> = Driver::with(3, 0);
        assert!(driver.try_push(Operation::new(&mut timer, 1)).is_ok());
        assert!(driver.try_push_dyn(OpObject::new(&mut gone, 2)).is_ok());
        assert_eq!(driver.try_cancel(2), Ok(()));
        // an operation that was never pushed is no error
        assert_eq!(driver.try_cancel(3), Ok(()));
        let mut entries: Vec<Entry> = Vec::new();
        let request = driver.submit(None, &mut entries);
        assert_eq!(request.timeout_ms, 0);
        assert_eq!(results(&entries), vec![(2, Err(IoError::Cancelled))]);
        assert_eq!(driver.complete_submit(Ok(Vec::new()), &mut entries), Ok(()));
        assert_eq!(results(&entries)[1..], [(1, Ok(0))]);
        let _ = driver.submit(None, &mut entries);
        assert_eq!(entries.len(), 2);
    }
    assert_eq!(gone.seen, usize::MAX);
}

#[test]
fn iocp_full_queue_takes_no_cancellation() {
    let mut a = Scripted::new(Poll::Ready(Ok(1)));
    let mut driver: Driver<'_, Scripted> = Driver::with(1, 0);
    assert!(driver.try_push(Operation::new(&mut a, 1)).is_ok());
    assert_eq!(driver.try_cancel(1), Err(()));
    let mut entries: Vec<Entry> = Vec::new();
    let _ = driver.submit(None, &mut entries);
    assert_eq!(results(&entries), vec![(1, Ok(1))]);
}

#[test]
fn iocp_posted_result_comes_back() {
    let mut overlapped = Overlapped::new(8);
    let transferred: u32 = post_driver_raw(Ok(17), &mut overlapped);
    let mut driver: Driver<'_, Scripted> = Driver::with(1, 0);
    let mut entries: Vec<Entry> = Vec::new();
    let posted = completion(overlapped.internal, 0, transferred, overlapped.user_data);
    assert_eq!(driver.complete_submit(Ok(vec![posted]), &mut entries), Ok(()));
    assert_eq!(results(&entries), vec![(8, Ok(17))]);
}

#[test]
fn iocp_posted_error_comes_back() {
    let mut overlapped = Overlapped::new(9);
    assert_eq!(post_driver_raw(Err(IoError::Os(1223)), &mut overlapped), 0);
    // the system reads the error code off the low half of the status
    let code: u32 = overlapped.internal as u32 & 0xFFFF;
    let mut driver: Driver<'_, Scripted> = Driver::with(1, 0);
    let mut entries: Vec<Entry> = Vec::new();
    let posted = completion(overlapped.internal, code, 0, overlapped.user_data);
    assert_eq!(driver.complete_submit(Ok(vec![posted]), &mut entries), Ok(()));
    assert_eq!(results(&entries), vec![(9, Err(IoError::Os(1223)))]);
}

#[test]
fn iocp_attaching() {
    let mut driver: Driver<'_, Scripted> = Driver::new();
    assert_eq!(driver.attach(7, Ok(()), Ok(())), Ok(Fd { raw_fd: 7 }));
    assert_eq!(driver.attach(7, Err(IoError::Os(87)), Ok(())), Err(IoError::Os(87)));
    assert_eq!(driver.register_fd(7, 1, Ok(()), Err(IoError::Os(6))), Err(IoError::Os(6)));
    assert_eq!(driver.unregister_fd(Fd::from_raw(7)), Ok(()));
    assert_eq!(Fd::from_raw(INVALID_FD).as_raw_fd(), -1);
}

#[test]
fn iocp_results_of_calls() {
    assert_eq!(winapi_result(ERROR_IO_PENDING, 3), Poll::Pending);
    assert_eq!(winapi_result(ERROR_IO_INCOMPLETE, 3), Poll::Ready(Ok(3)));
    assert_eq!(winapi_result(ERROR_HANDLE_EOF, 0), Poll::Ready(Ok(0)));
    assert_eq!(winapi_result(ERROR_PIPE_CONNECTED, 1), Poll::Ready(Ok(1)));
    assert_eq!(winapi_result(ERROR_NO_DATA, 2), Poll::Ready(Ok(2)));
    assert_eq!(winapi_result(5, 2), Poll::Ready(Err(IoError::Os(5))));
    let read = Call::ReadFile { fd: 1, len: 8 };
    assert_eq!(finish(read, 1, 0, 8), Poll::Pending);
    assert_eq!(finish(read, 0, ERROR_HANDLE_EOF, 8), Poll::Ready(Ok(0)));
    let connect = Call::ConnectEx { fd: 1, addr_len: 16 };
    assert_eq!(finish(connect, 1, 0, 8), Poll::Ready(Ok(8)));
    assert_eq!(finish(connect, 0, ERROR_IO_PENDING, 8), Poll::Pending);
    let flush = Call::FlushFileBuffers { fd: 1 };
    assert_eq!(finish(flush, 1, 0, 8), Poll::Ready(Ok(0)));
    let recv = Call::WsaRecv { fd: 1, count: 1 };
    assert_eq!(finish(recv, 0, 0, 8), Poll::Pending);
    assert_eq!(finish(recv, -1, 10054, 8), Poll::Ready(Err(IoError::Os(10054))));
    assert_eq!(finish(recv, -1, ERROR_IO_INCOMPLETE, 8), Poll::Ready(Ok(8)));
}

#[test]
fn iocp_statuses() {
    assert_eq!(ntstatus_from_win32(0), 0);
    assert_eq!(ntstatus_from_win32(-5), -5);
    assert_eq!(ntstatus_from_win32(5) as u32, 0xC007_0005);
    assert_eq!(ntstatus_from_win32(0x1234_5678) as u32, 0xC007_5678);
    let mut overlapped = Overlapped::new(3);
    assert_eq!(post_driver_raw(Ok(9), &mut overlapped), 9);
    assert_eq!(overlapped, Overlapped { internal: 0, offset: 0, offset_high: 0, user_data: 3 });
    assert_eq!(post_driver_raw(Err(IoError::Os(5)), &mut overlapped), 0);
    assert_eq!(overlapped.internal as u32, 0xC007_0005);
    assert_eq!(post_driver_raw(Err(IoError::AlreadyClosed), &mut overlapped), 0);
    assert_eq!(overlapped.internal, 0);
}

#[test]
fn iocp_constants_match_the_system() {
    assert_eq!(ERROR_HANDLE_EOF, Foundation::ERROR_HANDLE_EOF);
    assert_eq!(ERROR_NO_DATA, Foundation::ERROR_NO_DATA);
    assert_eq!(ERROR_PIPE_CONNECTED, Foundation::ERROR_PIPE_CONNECTED);
    assert_eq!(ERROR_IO_INCOMPLETE, Foundation::ERROR_IO_INCOMPLETE);
    assert_eq!(ERROR_IO_PENDING, Foundation::ERROR_IO_PENDING);
    assert_eq!(STATUS_SUCCESS, Foundation::STATUS_SUCCESS);
    assert_eq!(STATUS_PENDING, Foundation::STATUS_PENDING);
    assert_eq!(WSAENOTSOCK, WinSock::WSAENOTSOCK);
    assert_eq!(INVALID_SOCKET as usize, WinSock::INVALID_SOCKET);
    assert_eq!(FACILITY_NTWIN32_BITS as u32, (Foundation::FACILITY_NTWIN32 << 16) as u32);
    assert_eq!(ERROR_SEVERITY_ERROR as u32, SystemServices::ERROR_SEVERITY_ERROR as u32);
    assert_eq!(INFINITE, Threading::INFINITE);
    assert_eq!(
        NOTIFICATION_MODES as u32,
        WindowsProgramming::FILE_SKIP_COMPLETION_PORT_ON_SUCCESS
            | WindowsProgramming::FILE_SKIP_SET_EVENT_ON_HANDLE
    );
}

#[test]
fn iocp_positions_are_split() {
    let offset: usize = 0x12_3456_789A;
    let mut op = ReadAt::new(FD, offset, Room { capacity: 16, init: 0 });
    assert_eq!(op.prepare(5), Call::ReadFile { fd: 12, len: 16 });
    assert_eq!(
        op.overlapped,
        Overlapped { internal: 0, offset: 0x3456_789A, offset_high: 0x12, user_data: 5 }
    );
    let mut op = WriteAt::new(FD, 7, Room { capacity: 16, init: 3 });
    assert_eq!(op.prepare(6), Call::WriteFile { fd: 12, len: 3 });
    assert_eq!(op.overlapped, Overlapped { internal: 0, offset: 7, offset_high: 0, user_data: 6 });
    assert_eq!(op.into_inner().init, 3);
}

#[test]
fn iocp_calls_of_operations() {
    let mut op = Read::new(FD, Room { capacity: 16, init: 0 });
    assert_eq!(op.overlapped.user_data, usize::MAX);
    assert_eq!(op.prepare(1), Call::ReadFile { fd: 12, len: 16 });
    assert_eq!(op.overlapped.user_data, 1);
    let mut op = Write::new(FD, Room { capacity: 16, init: 2 });
    assert_eq!(op.prepare(1), Call::WriteFile { fd: 12, len: 2 });
    let mut op = RecvVectoredImpl::new(FD, Many(3));
    assert_eq!(op.prepare(1), Call::WsaRecv { fd: 12, count: 3 });
    let mut op = SendVectoredImpl::new(FD, Many(4));
    assert_eq!(op.prepare(1), Call::WsaSend { fd: 12, count: 4 });
    let mut op = Recv::new(FD, Room { capacity: 16, init: 0 });
    assert_eq!(op.prepare(1), Call::WsaRecv { fd: 12, count: 1 });
    assert_eq!(op.into_inner().capacity, 16);
    let mut op = Send::new(FD, Room { capacity: 16, init: 0 });
    assert_eq!(op.prepare(1), Call::WsaSend { fd: 12, count: 1 });
    let mut op = RecvFrom::new(FD, Room { capacity: 16, init: 0 });
    assert_eq!(op.prepare(1), Call::WsaRecvFrom { fd: 12, count: 1, addr_len: 128 });
    let (_, from) = op.into_inner();
    assert_eq!(from.len(), 128);
    let mut op = SendTo::new(FD, Room { capacity: 16, init: 0 }, addr(&[1, 2, 3]));
    assert_eq!(op.prepare(1), Call::WsaSendTo { fd: 12, count: 1, addr_len: 3 });
    let mut op = Sync::new(FD, true);
    assert_eq!(op.prepare(1), Call::FlushFileBuffers { fd: 12 });
    let mut op = ConnectNamedPipe::new(FD);
    assert_eq!(op.prepare(1), Call::ConnectNamedPipe { fd: 12 });
}

#[test]
fn iocp_connecting() {
    let mut op = Connect::new(FD, addr(&[2, 0, 0, 80]));
    assert_eq!(op.prepare(4, Ok(true)), Ok(Call::ConnectEx { fd: 12, addr_len: 4 }));
    assert_eq!(op.prepare(4, Ok(false)), Err(IoError::MissingExtension(Extension::ConnectEx)));
    assert_eq!(op.prepare(4, Err(IoError::Os(10022))), Err(IoError::Os(10022)));
    assert_eq!(op.on_connect(Ok(0), Err(IoError::Os(6))), Err(IoError::Os(6)));
    assert_eq!(Connect::default().on_connect(Err(IoError::Os(7)), Ok(())), Err(IoError::Os(7)));
    assert_eq!(Connect::default().on_connect(Ok(0), Ok(())), Ok(()));
    assert_eq!(require_extension(Ok(true), Extension::AcceptEx), Ok(()));
}

#[test]
fn iocp_accepting() {
    let mut op = Accept::with_socket_opts(FD, 2, 1, Some(6));
    let opts = AcceptSocketOpts { domain: 2, ty: 1, protocol: Some(6) };
    assert_eq!(op.socket_to_create(), Some(opts));
    assert_eq!(op.prepare(3, Err(IoError::Os(10024)), Ok(true)), Err(IoError::Os(10024)));
    assert_eq!(op.overlapped.user_data, usize::MAX);
    assert_eq!(
        op.prepare(3, Ok(44), Ok(true)),
        Ok(Call::AcceptEx { fd: 12, accept_fd: 44, addr_len: 128 })
    );
    assert_eq!(op.socket_to_create(), None);
    let remote: Vec<u8> = vec![9, 8, 7];
    assert_eq!(op.on_accept(Err(IoError::Os(1)), Ok(()), Ok(true), &remote), Err(IoError::Os(1)));
    assert_eq!(op.on_accept(Ok(0), Err(IoError::Os(2)), Ok(true), &remote), Err(IoError::Os(2)));
    assert_eq!(
        op.on_accept(Ok(0), Ok(()), Ok(false), &remote),
        Err(IoError::MissingExtension(Extension::GetAcceptExSockAddrs))
    );
    assert_eq!(op.on_accept(Ok(0), Ok(()), Ok(true), &remote), Ok(44));
    assert_eq!(op.addr.len(), 3);
    assert_eq!(op.addr.storage.bytes[..4], [9, 8, 7, 0]);
    op.init_with_socket_opts(Fd { raw_fd: 13 }, 23, 1, None);
    assert_eq!(op.accept_fd, INVALID_SOCKET);
    let mut op = Accept::new(FD, 50);
    assert_eq!(
        op.prepare(3, Err(IoError::Os(1)), Ok(true)),
        Ok(Call::AcceptEx { fd: 12, accept_fd: 50, addr_len: 128 })
    );
}

struct Handle(isize);

impl IntoRawFd for Handle {
    fn into_raw_fd(self) -> isize {
        self.0
    }
}

#[test]
fn iocp_closing() {
    assert_eq!(get_sockopt_error(0, 0, 0), Ok(()));
    assert_eq!(get_sockopt_error(0, 0, 10061), Err(10061));
    assert_eq!(get_sockopt_error(-1, WSAENOTSOCK, 0), Err(WSAENOTSOCK));
    assert_eq!(close_raw_fd(Ok(())), Close::Socket);
    assert_eq!(close_raw_fd(Err(WSAENOTSOCK)), Close::Handle);
    // a socket is closed whatever its pending error
    assert_eq!(close_raw_fd(Err(10061)), Close::Socket);
    assert_eq!(close_result(Close::Handle, 1, 6), Ok(0));
    assert_eq!(close_result(Close::Handle, 0, 6), Err(IoError::Os(6)));
    assert_eq!(close_result(Close::Socket, 0, 6), Ok(0));
    assert_eq!(close_result(Close::Socket, -1, 6), Err(IoError::Os(6)));
    let mut file = Some(Handle(3));
    assert_eq!(take_to_close(&mut file), Ok(3));
    assert_eq!(take_to_close(&mut file), Err(IoError::AlreadyClosed));
}
