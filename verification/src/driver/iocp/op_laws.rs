//! What the operations ask for, going by what they were made with, and what the calls mean.
use vstd::prelude::*;

use crate::addr::SockAddr;
use crate::buf::{AsIoSlices, IntoInner, IoBuf, IoBufMut};
use crate::driver::attempts::TIMER_PENDING;
use crate::driver::iocp::op::{
    close_raw_fd, close_result, finish, get_sockopt_error, require_extension, take_to_close, Accept, AcceptSocketOpts,
    Call, Close, Connect, ConnectNamedPipe, IntoRawFd, Read, ReadAt, Recv, RecvFrom, RecvMsgImpl, RecvVectoredImpl,
    Send, SendMsgImpl, SendTo, SendVectoredImpl, Sync, Write, WriteAt,
};
use crate::driver::iocp::status::{
    winapi_result, ERROR_HANDLE_EOF, ERROR_IO_INCOMPLETE, ERROR_IO_PENDING, ERROR_NO_DATA,
    ERROR_PIPE_CONNECTED, STATUS_SUCCESS,
};
use crate::driver::iocp::{Completion, Driver, Fd, OpCode, RawFd};
use crate::driver::time::Timeout;
use crate::driver::Entry;
use crate::error::{Extension, IoError, IoResult};
use crate::poll::Poll;
use crate::time::Duration;

verus! {

/// The call transfers data of a file.
pub open spec fn is_file_transfer(call: Call) -> bool {
    call is ReadFile || call is WriteFile
}

/// The call transfers data of a socket.
pub open spec fn is_socket_transfer(call: Call) -> bool {
    call is WsaRecv || call is WsaSend || call is WsaRecvFrom || call is WsaSendTo
}

/// A call that transfers data and succeeds is never complete at once. Its result comes from the completion port alone,
/// and is what the port reports: an operation has one source of its result.
pub proof fn law_transfers_are_reported_by_the_port<'arena, O: OpCode>(
    call: Call,
    res: i32,
    error: u32,
    transferred: u32,
    attempt: Poll<IoResult<usize>>,
    completion: Completion,
    entry: Entry,
)
    requires
        is_file_transfer(call) && res != 0 || is_socket_transfer(call) && res == 0,
        call_ensures(finish, (call, res, error, transferred), attempt),
        completion.status == STATUS_SUCCESS,
        call_ensures(Driver::<'arena, O>::create_entry, (completion,), entry),
    ensures
        attempt is Pending,
        entry.result == Ok::<usize, IoError>(completion.transferred as usize),
        entry.user_data == completion.user_data,
{
}

/// A call that transfers no data and succeeds is complete at once: connecting and accepting with what they report,
/// flushing and the connection of a pipe with nothing.
pub proof fn law_other_calls_are_complete_at_once(
    call: Call,
    res: i32,
    error: u32,
    transferred: u32,
    attempt: Poll<IoResult<usize>>,
)
    requires
        !is_file_transfer(call),
        !is_socket_transfer(call),
        res != 0,
        call_ensures(finish, (call, res, error, transferred), attempt),
    ensures
        call is ConnectEx || call is AcceptEx ==> attempt == Poll::Ready(
            Ok::<usize, IoError>(transferred as usize),
        ),
        call is FlushFileBuffers || call is ConnectNamedPipe ==> attempt == Poll::Ready(
            Ok::<usize, IoError>(0),
        ),
{
}

/// A call that fails because it is under way is pending. The codes that only say that there is nothing more, or that a
/// client is there already, are successes, and any other code is reported as it is.
pub proof fn law_failed_calls(
    call: Call,
    res: i32,
    error: u32,
    transferred: u32,
    attempt: Poll<IoResult<usize>>,
)
    requires
        is_socket_transfer(call) && res != 0 || !is_socket_transfer(call) && res == 0,
        call_ensures(finish, (call, res, error, transferred), attempt),
    ensures
        error == ERROR_IO_PENDING <==> attempt is Pending,
        error == ERROR_HANDLE_EOF || error == ERROR_NO_DATA || error == ERROR_PIPE_CONNECTED || error
            == ERROR_IO_INCOMPLETE ==> {
            &&& attempt matches Poll::Ready(Ok(n)) && n == if is_socket_transfer(call) || call is ConnectEx
                || call is AcceptEx {
                transferred
            } else {
                0
            }
        },
        error != ERROR_IO_PENDING && error != ERROR_HANDLE_EOF && error != ERROR_NO_DATA && error
            != ERROR_PIPE_CONNECTED && error != ERROR_IO_INCOMPLETE ==> attempt == Poll::Ready(
            Err::<usize, IoError>(IoError::Os(error as i32)),
        ),
{
}

/// The meaning of an error does not depend on the call that left it behind.
pub proof fn law_errors_mean_the_same(error: u32, transferred: u32, attempt: Poll<IoResult<usize>>)
    requires
        call_ensures(winapi_result, (error, transferred), attempt),
    ensures
        error == ERROR_IO_PENDING <==> attempt is Pending,
        attempt matches Poll::Ready(Ok(n)) ==> n == transferred,
        attempt matches Poll::Ready(Err(e)) ==> e == IoError::Os(error as i32),
        attempt matches Poll::Ready(Ok(_)) <==> error == ERROR_HANDLE_EOF || error == ERROR_NO_DATA || error
            == ERROR_PIPE_CONNECTED || error == ERROR_IO_INCOMPLETE,
{
}

/// A read asks for as many bytes as its buffer has room for, as far as 32 bits go.
pub proof fn law_read<T: IoBufMut>(fd: Fd, buffer: T, made: Read<T>, user_data: usize)
    requires
        call_ensures(Read::<T>::new, (fd, buffer), made),
    ensures
        forall|op: &mut Read<T>, call: Call|
            *op == made && #[trigger] call_ensures(Read::<T>::prepare, (op, user_data), call) ==> {
                &&& call matches Call::ReadFile { fd: target, len } && target == fd.raw_fd
                    && len == buffer.room() % 0x1_0000_0000
                &&& final(op).overlapped.user_data == user_data
                &&& final(op).overlapped.internal == 0
                &&& final(op).overlapped.offset == 0
                &&& final(op).overlapped.offset_high == 0
                &&& final(op).fd == fd
                &&& final(op).buffer == made.buffer
                &&& made.buffer == buffer
            },
{
}

/// A read at a position asks for the bytes there, and for as many as its buffer has room for.
pub proof fn law_read_at<T: IoBufMut>(fd: Fd, offset: usize, buffer: T, made: ReadAt<T>, user_data: usize)
    requires
        call_ensures(ReadAt::<T>::new, (fd, offset, buffer), made),
    ensures
        forall|op: &mut ReadAt<T>, call: Call|
            *op == made && #[trigger] call_ensures(ReadAt::<T>::prepare, (op, user_data), call) ==> {
                &&& call matches Call::ReadFile { fd: target, len } && target == fd.raw_fd
                    && len == buffer.room() % 0x1_0000_0000
                &&& final(op).overlapped.user_data == user_data
                &&& final(op).overlapped.internal == 0
                &&& final(op).overlapped.offset + final(op).overlapped.offset_high * 0x1_0000_0000 == offset
                &&& final(op).fd == fd
                &&& final(op).buffer == made.buffer
                &&& made.buffer == buffer
            },
{
}

/// A write hands over the bytes that its buffer holds.
pub proof fn law_write<T: IoBuf>(fd: Fd, buffer: T, made: Write<T>, user_data: usize)
    requires
        call_ensures(Write::<T>::new, (fd, buffer), made),
    ensures
        forall|op: &mut Write<T>, call: Call|
            *op == made && #[trigger] call_ensures(Write::<T>::prepare, (op, user_data), call) ==> {
                &&& call matches Call::WriteFile { fd: target, len } && target == fd.raw_fd
                    && len == buffer.filled() % 0x1_0000_0000
                &&& final(op).overlapped.user_data == user_data
                &&& final(op).overlapped.internal == 0
                &&& final(op).overlapped.offset == 0
                &&& final(op).overlapped.offset_high == 0
                &&& final(op).fd == fd
                &&& final(op).buffer == made.buffer
                &&& made.buffer == buffer
            },
{
}

/// A write at a position hands over the bytes that its buffer holds, to be put there.
pub proof fn law_write_at<T: IoBuf>(fd: Fd, offset: usize, buffer: T, made: WriteAt<T>, user_data: usize)
    requires
        call_ensures(WriteAt::<T>::new, (fd, offset, buffer), made),
    ensures
        forall|op: &mut WriteAt<T>, call: Call|
            *op == made && #[trigger] call_ensures(WriteAt::<T>::prepare, (op, user_data), call) ==> {
                &&& call matches Call::WriteFile { fd: target, len } && target == fd.raw_fd
                    && len == buffer.filled() % 0x1_0000_0000
                &&& final(op).overlapped.user_data == user_data
                &&& final(op).overlapped.internal == 0
                &&& final(op).overlapped.offset + final(op).overlapped.offset_high * 0x1_0000_0000 == offset
                &&& final(op).fd == fd
                &&& final(op).buffer == made.buffer
                &&& made.buffer == buffer
            },
{
}

/// Receiving into several buffers asks for all of them.
pub proof fn law_recv_vectored<T: AsIoSlices>(fd: Fd, buffer: T, made: RecvVectoredImpl<T>, user_data: usize)
    requires
        call_ensures(RecvVectoredImpl::<T>::new, (fd, buffer), made),
    ensures
        forall|op: &mut RecvVectoredImpl<T>, call: Call|
            *op == made && #[trigger] call_ensures(RecvVectoredImpl::<T>::prepare, (op, user_data), call) ==> {
                &&& call matches Call::WsaRecv { fd: target, count } && target == fd.raw_fd
                    && count == buffer.slices() % 0x1_0000_0000
                &&& final(op).overlapped.user_data == user_data
                &&& final(op).overlapped.internal == 0
                &&& final(op).overlapped.offset == 0
                &&& final(op).overlapped.offset_high == 0
                &&& final(op).fd == fd
                &&& final(op).buffer == made.buffer
                &&& made.buffer == buffer
            },
{
}

/// Sending from several buffers hands over all of them.
pub proof fn law_send_vectored<T: AsIoSlices>(fd: Fd, buffer: T, made: SendVectoredImpl<T>, user_data: usize)
    requires
        call_ensures(SendVectoredImpl::<T>::new, (fd, buffer), made),
    ensures
        forall|op: &mut SendVectoredImpl<T>, call: Call|
            *op == made && #[trigger] call_ensures(SendVectoredImpl::<T>::prepare, (op, user_data), call) ==> {
                &&& call matches Call::WsaSend { fd: target, count } && target == fd.raw_fd
                    && count == buffer.slices() % 0x1_0000_0000
                &&& final(op).overlapped.user_data == user_data
                &&& final(op).overlapped.internal == 0
                &&& final(op).overlapped.offset == 0
                &&& final(op).overlapped.offset_high == 0
                &&& final(op).fd == fd
                &&& final(op).buffer == made.buffer
                &&& made.buffer == buffer
            },
{
}

/// Receiving asks for the one buffer.
pub proof fn law_recv<T>(fd: Fd, buffer: T, made: Recv<T>, user_data: usize)
    requires
        call_ensures(Recv::<T>::new, (fd, buffer), made),
    ensures
        forall|op: &mut Recv<T>, call: Call|
            *op == made && #[trigger] call_ensures(Recv::<T>::prepare, (op, user_data), call) ==> {
                &&& call matches Call::WsaRecv { fd: target, count } && target == fd.raw_fd && count == 1
                &&& final(op).inner.overlapped.user_data == user_data
                &&& final(op).inner.overlapped.internal == 0
                &&& final(op).inner.overlapped.offset == 0
                &&& final(op).inner.overlapped.offset_high == 0
                &&& final(op).inner.fd == fd
                &&& final(op).inner.buffer == made.inner.buffer
                &&& made.inner.buffer.buffer == buffer
            },
{
}

/// Sending hands over the one buffer.
pub proof fn law_send<T>(fd: Fd, buffer: T, made: Send<T>, user_data: usize)
    requires
        call_ensures(Send::<T>::new, (fd, buffer), made),
    ensures
        forall|op: &mut Send<T>, call: Call|
            *op == made && #[trigger] call_ensures(Send::<T>::prepare, (op, user_data), call) ==> {
                &&& call matches Call::WsaSend { fd: target, count } && target == fd.raw_fd && count == 1
                &&& final(op).inner.overlapped.user_data == user_data
                &&& final(op).inner.overlapped.internal == 0
                &&& final(op).inner.overlapped.offset == 0
                &&& final(op).inner.overlapped.offset_high == 0
                &&& final(op).inner.fd == fd
                &&& final(op).inner.buffer == made.inner.buffer
                &&& made.inner.buffer.buffer == buffer
            },
{
}

/// Receiving a message offers all the buffers, and room for any address.
pub proof fn law_recv_msg<T: AsIoSlices>(fd: Fd, buffer: T, made: RecvMsgImpl<T>, user_data: usize)
    requires
        call_ensures(RecvMsgImpl::<T>::new, (fd, buffer), made),
    ensures
        forall|op: &mut RecvMsgImpl<T>, call: Call|
            *op == made && #[trigger] call_ensures(RecvMsgImpl::<T>::prepare, (op, user_data), call) ==> {
                &&& call matches Call::WsaRecvFrom { fd: target, count, addr_len } && target == fd.raw_fd
                    && count == buffer.slices() % 0x1_0000_0000 && addr_len == 128
                &&& final(op).overlapped.user_data == user_data
                &&& final(op).overlapped.internal == 0
                &&& final(op).overlapped.offset == 0
                &&& final(op).overlapped.offset_high == 0
                &&& final(op).fd == fd
                &&& final(op).buffer == made.buffer
                &&& made.buffer == buffer
                &&& final(op).addr == made.addr
                &&& final(op).addr_len == 128
                &&& made.addr.bytes@.len() == 128
            },
{
}

/// Sending a message hands over all the buffers, and the whole address.
pub proof fn law_send_msg<T: AsIoSlices>(fd: Fd, buffer: T, addr: SockAddr, made: SendMsgImpl<T>, user_data: usize)
    requires
        call_ensures(SendMsgImpl::<T>::new, (fd, buffer, addr), made),
    ensures
        forall|op: &mut SendMsgImpl<T>, call: Call|
            *op == made && #[trigger] call_ensures(SendMsgImpl::<T>::prepare, (op, user_data), call) ==> {
                &&& call matches Call::WsaSendTo { fd: target, count, addr_len } && target == fd.raw_fd
                    && count == buffer.slices() % 0x1_0000_0000 && addr_len == addr.len
                &&& final(op).overlapped.user_data == user_data
                &&& final(op).overlapped.internal == 0
                &&& final(op).overlapped.offset == 0
                &&& final(op).overlapped.offset_high == 0
                &&& final(op).fd == fd
                &&& final(op).buffer == made.buffer
                &&& made.buffer == buffer
                &&& final(op).addr == addr
            },
{
}

/// Receiving with an address offers the one buffer, and room for any address.
pub proof fn law_recv_from<T>(fd: Fd, buffer: T, made: RecvFrom<T>, user_data: usize)
    requires
        call_ensures(RecvFrom::<T>::new, (fd, buffer), made),
    ensures
        forall|op: &mut RecvFrom<T>, call: Call|
            *op == made && #[trigger] call_ensures(RecvFrom::<T>::prepare, (op, user_data), call) ==> {
                &&& call matches Call::WsaRecvFrom { fd: target, count, addr_len } && target == fd.raw_fd
                    && count == 1 && addr_len == 128
                &&& final(op).inner.overlapped.user_data == user_data
                &&& final(op).inner.overlapped.internal == 0
                &&& final(op).inner.overlapped.offset == 0
                &&& final(op).inner.overlapped.offset_high == 0
                &&& final(op).inner.fd == fd
                &&& final(op).inner.buffer == made.inner.buffer
                &&& made.inner.buffer.buffer == buffer
                &&& final(op).inner.addr == made.inner.addr
                &&& final(op).inner.addr_len == 128
                &&& made.inner.addr.bytes@.len() == 128
            },
{
}

/// Sending to an address hands over the one buffer, and the whole address.
pub proof fn law_send_to<T>(fd: Fd, buffer: T, addr: SockAddr, made: SendTo<T>, user_data: usize)
    requires
        call_ensures(SendTo::<T>::new, (fd, buffer, addr), made),
    ensures
        forall|op: &mut SendTo<T>, call: Call|
            *op == made && #[trigger] call_ensures(SendTo::<T>::prepare, (op, user_data), call) ==> {
                &&& call matches Call::WsaSendTo { fd: target, count, addr_len } && target == fd.raw_fd
                    && count == 1 && addr_len == addr.len
                &&& final(op).inner.overlapped.user_data == user_data
                &&& final(op).inner.overlapped.internal == 0
                &&& final(op).inner.overlapped.offset == 0
                &&& final(op).inner.overlapped.offset_high == 0
                &&& final(op).inner.fd == fd
                &&& final(op).inner.buffer == made.inner.buffer
                &&& made.inner.buffer.buffer == buffer
                &&& final(op).inner.addr == addr
            },
{
}

/// A sync flushes its file, whatever of it may be left out.
pub proof fn law_sync(fd: Fd, datasync: bool, made: Sync, user_data: usize)
    requires
        call_ensures(Sync::new, (fd, datasync), made),
    ensures
        made.datasync == datasync,
        forall|op: &mut Sync, call: Call|
            *op == made && #[trigger] call_ensures(Sync::prepare, (op, user_data), call) ==> call
                == (Call::FlushFileBuffers { fd: fd.raw_fd }) && *final(op) == made,
{
}

/// A named pipe waits for a client on its own handle.
pub proof fn law_connect_named_pipe(fd: Fd, made: ConnectNamedPipe, user_data: usize)
    requires
        call_ensures(ConnectNamedPipe::new, (fd,), made),
    ensures
        forall|op: &mut ConnectNamedPipe, call: Call|
            *op == made && #[trigger] call_ensures(ConnectNamedPipe::prepare, (op, user_data), call) ==> {
                &&& call == (Call::ConnectNamedPipe { fd: fd.raw_fd })
                &&& final(op).fd == fd
                &&& final(op).overlapped.user_data == user_data
                &&& final(op).overlapped.internal == 0
                &&& final(op).overlapped.offset == 0
                &&& final(op).overlapped.offset_high == 0
            },
{
}

/// Connecting hands over the whole address, unless the entry point for it cannot be had.
pub proof fn law_connect(fd: Fd, addr: SockAddr, made: Connect, user_data: usize, found: IoResult<bool>)
    requires
        call_ensures(Connect::new, (fd, addr), made),
    ensures
        forall|op: &mut Connect, r: IoResult<Call>|
            *op == made && #[trigger] call_ensures(Connect::prepare, (op, user_data, found), r) ==> {
                &&& found == Ok::<bool, IoError>(true) ==> r == Ok::<Call, IoError>(
                    Call::ConnectEx { fd: fd.raw_fd, addr_len: addr.len },
                )
                &&& found == Ok::<bool, IoError>(false) ==> r == Err::<Call, IoError>(
                    IoError::MissingExtension(Extension::ConnectEx),
                )
                &&& found matches Err(error) ==> r == Err::<Call, IoError>(error)
                &&& final(op).fd == fd
                &&& final(op).addr == addr
                &&& final(op).overlapped.user_data == user_data
                &&& final(op).overlapped.internal == 0
            },
        forall|result: IoResult<usize>, updated: IoResult<()>, r: IoResult<()>| #[trigger]
            call_ensures(Connect::on_connect, (made, result, updated), r) ==> (r is Ok <==> result is Ok
                && updated is Ok) && (result matches Err(error) ==> r == Err::<(), IoError>(error)) && (
            result is Ok ==> r == updated),
{
}

/// A connection is accepted on the given socket, or, where the kind of socket is given, on one that was created. There
/// is room for any address.
pub proof fn law_accept(
    fd: Fd,
    accept_fd: RawFd,
    made: Accept,
    user_data: usize,
    created: IoResult<RawFd>,
    found: IoResult<bool>,
)
    requires
        call_ensures(Accept::new, (fd, accept_fd), made),
    ensures
        forall|op: &mut Accept, r: IoResult<Call>|
            *op == made && #[trigger] call_ensures(Accept::prepare, (op, user_data, created, found), r) ==> {
                &&& found == Ok::<bool, IoError>(true) ==> r == Ok::<Call, IoError>(
                    Call::AcceptEx { fd: fd.raw_fd, accept_fd, addr_len: 128 },
                )
                &&& found == Ok::<bool, IoError>(false) ==> r == Err::<Call, IoError>(
                    IoError::MissingExtension(Extension::AcceptEx),
                )
                &&& found matches Err(error) ==> r == Err::<Call, IoError>(error)
                &&& final(op).fd == fd
                &&& final(op).accept_fd == accept_fd
                &&& final(op).addr == made.addr
                &&& final(op).overlapped.user_data == user_data
            },
        made.addr.storage.bytes@.len() == 128,
        made.addr.len == 128,
        forall|opts: Option<AcceptSocketOpts>| #[trigger]
            call_ensures(Accept::socket_to_create, (&made,), opts) ==> opts is None,
{
}

/// Where the kind of socket is given, a socket of that kind is asked for once, the connection is accepted on it, and
/// the same socket is used as long as the operation is not set up anew.
pub proof fn law_accept_on_created_socket(
    fd: Fd,
    domain: i32,
    ty: i32,
    protocol: Option<i32>,
    made: Accept,
    user_data: usize,
    socket: RawFd,
)
    requires
        call_ensures(Accept::with_socket_opts, (fd, domain, ty, protocol), made),
        socket != -1,
    ensures
        forall|opts: Option<AcceptSocketOpts>| #[trigger]
            call_ensures(Accept::socket_to_create, (&made,), opts) ==> opts is Some && opts->0.domain == domain
                && opts->0.ty == ty && opts->0.protocol == protocol,
        forall|op: &mut Accept, r: IoResult<Call>|
            *op == made && #[trigger] call_ensures(
                Accept::prepare,
                (op, user_data, Ok::<RawFd, IoError>(socket), Ok::<bool, IoError>(true)),
                r,
            ) ==> {
                &&& r == Ok::<Call, IoError>(
                    Call::AcceptEx { fd: fd.raw_fd, accept_fd: socket, addr_len: 128 },
                )
                &&& final(op).accept_fd == socket
                &&& forall|opts: Option<AcceptSocketOpts>| #[trigger]
                    call_ensures(Accept::socket_to_create, (&*final(op),), opts) ==> opts is None
            },
        forall|op: &mut Accept, error: IoError, found: IoResult<bool>, r: IoResult<Call>|
            *op == made && #[trigger] call_ensures(
                Accept::prepare,
                (op, user_data, Err::<RawFd, IoError>(error), found),
                r,
            ) ==> r == Err::<Call, IoError>(error) && *final(op) == made,
{
}

/// An accepted connection is handed out as the socket that it was accepted on, with the remote address as the system
/// has put it, and only if everything that comes after accepting has succeeded. The first failure is reported.
pub proof fn law_accepted_socket_is_handed_out(
    made: Accept,
    result: IoResult<usize>,
    updated: IoResult<()>,
    found: IoResult<bool>,
    remote: Vec<u8>,
)
    requires
        made.wf(),
        remote@.len() <= 128,
    ensures
        forall|op: &mut Accept, r: IoResult<RawFd>|
            *op == made && #[trigger] call_ensures(Accept::on_accept, (op, result, updated, found, &remote), r)
                ==> {
                &&& r is Ok <==> result is Ok && updated is Ok && found == Ok::<bool, IoError>(true)
                &&& r is Ok ==> r == Ok::<RawFd, IoError>(made.accept_fd) && final(op).addr.len == remote@.len()
                    && final(op).addr.storage.bytes@.take(remote@.len() as int) == remote@
                &&& result matches Err(error) ==> r == Err::<RawFd, IoError>(error)
                &&& result is Ok ==> (updated matches Err(error) ==> r == Err::<RawFd, IoError>(error))
                &&& result is Ok && updated is Ok && found == Ok::<bool, IoError>(false) ==> r == Err::<RawFd, IoError>(
                    IoError::MissingExtension(Extension::GetAcceptExSockAddrs),
                )
            },
{
    assert forall|op: &mut Accept, r: IoResult<RawFd>|
        *op == made && #[trigger] call_ensures(Accept::on_accept, (op, result, updated, found, &remote), r)
            && r is Ok implies final(op).addr.len == remote@.len() by {
        assert(final(op).addr.bytes() == remote@);
        assert(final(op).addr.bytes().len() == remote@.len());
    }
}

/// An entry point can be called exactly if it was found; the one that is missing is named.
pub proof fn law_extensions(found: IoResult<bool>, extension: Extension, r: IoResult<()>)
    requires
        call_ensures(require_extension, (found, extension), r),
    ensures
        r is Ok <==> found == Ok::<bool, IoError>(true),
        found == Ok::<bool, IoError>(false) ==> r == Err::<(), IoError>(IoError::MissingExtension(extension)),
        found matches Err(error) ==> r == Err::<(), IoError>(error),
{
}

/// What can be asked for its pending error as a socket is closed as a socket, and what is no socket as a file. Closing
/// succeeds exactly if the call for that kind says so, and a failure is reported with the error of the thread.
pub proof fn law_closing(
    rc: i32,
    last_error: i32,
    err_code: i32,
    sockopt: Result<(), i32>,
    close: Close,
    ret: i32,
    close_error: i32,
    r: IoResult<usize>,
)
    requires
        call_ensures(get_sockopt_error, (rc, last_error, err_code), sockopt),
        call_ensures(close_raw_fd, (sockopt,), close),
        call_ensures(close_result, (close, ret, close_error), r),
        err_code != 10038,
    ensures
        rc == 0 ==> close is Socket,
        rc != 0 && last_error == 10038 ==> close is Handle,
        rc == 0 && err_code != 0 ==> sockopt == Err::<(), i32>(err_code),
        rc == 0 && err_code == 0 ==> sockopt is Ok,
        rc != 0 ==> sockopt == Err::<(), i32>(last_error),
        close is Socket ==> (r is Ok <==> ret == 0),
        close is Handle ==> (r is Ok <==> ret != 0),
        r is Ok ==> r == Ok::<usize, IoError>(0),
        r is Err ==> r == Err::<usize, IoError>(IoError::Os(close_error)),
{
}

/// Closing a file or socket takes the value away and hands out its raw fd, so that closing it again is an error.
pub proof fn law_close_once<T: IntoRawFd>(object: T)
    ensures
        forall|value: &mut Option<T>, r: IoResult<RawFd>|
            *value == Some(object) && #[trigger] call_ensures(take_to_close::<T>, (value,), r) ==> r == Ok::<
                RawFd,
                IoError,
            >(object.raw_fd()) && *final(value) is None,
        forall|value: &mut Option<T>, r: IoResult<RawFd>|
            *value == None::<T> && #[trigger] call_ensures(take_to_close::<T>, (value,), r) ==> r == Err::<
                RawFd,
                IoError,
            >(IoError::AlreadyClosed) && *final(value) is None,
{
}

/// What was received comes back with the address that was put next to it, as long as the system said.
pub proof fn law_received_from<T>(op: RecvFrom<T>, inner: (T, SockAddr), msg: RecvMsgImpl<T>, msg_inner: (T, SockAddr))
    requires
        call_ensures(<RecvFrom<T> as IntoInner>::into_inner, (op,), inner),
        call_ensures(<RecvMsgImpl<T> as IntoInner>::into_inner, (msg,), msg_inner),
    ensures
        inner.0 == op.inner.buffer.buffer,
        inner.1.storage == op.inner.addr,
        inner.1.len == op.inner.addr_len,
        msg_inner.0 == msg.buffer,
        msg_inner.1.storage == msg.addr,
        msg_inner.1.len == msg.addr_len,
{
}

/// A timeout makes no call: it asks for a timer as long as its delay, every time, and stays as it is.
pub proof fn law_timeout(delay: Duration, user_data: usize, made: Timeout)
    requires
        call_ensures(Timeout::new, (delay,), made),
    ensures
        forall|op: &mut Timeout, attempt: Poll<IoResult<usize>>|
            *op == made && #[trigger] call_ensures(<Timeout as OpCode>::operate, (op, user_data), attempt)
                ==> attempt == Poll::<IoResult<usize>>::Ready(Ok(TIMER_PENDING)) && *final(op) == made,
        forall|asked: Duration| #[trigger]
            call_ensures(<Timeout as OpCode>::timer_delay, (&made,), asked) ==> asked == delay,
        <Timeout as OpCode>::delay(&made) == Some(delay),
{
}

/// An accept that is made ready for another connection is about the given socket, on a socket of the given kind that is
/// still to be created.
pub proof fn law_accept_is_made_ready_again(
    before: Accept,
    fd: Fd,
    domain: i32,
    ty: i32,
    protocol: Option<i32>,
)
    ensures
        forall|op: &mut Accept|
            *op == before && #[trigger] call_ensures(
                Accept::init_with_socket_opts,
                (op, fd, domain, ty, protocol),
                (),
            ) ==> {
                let opts = final(op).accept_sock_opts;
                &&& final(op).fd == fd
                &&& final(op).accept_fd == -1isize
                &&& opts is Some && opts->0.domain == domain && opts->0.ty == ty && opts->0.protocol == protocol
            },
{
}

/// The remote address is what the system put there, unless the entry point that tells where is missing: then the
/// address stays as it was.
pub proof fn law_accepted_address(before: Accept, found: IoResult<bool>, remote: Vec<u8>)
    requires
        before.wf(),
        remote@.len() <= 128,
    ensures
        forall|op: &mut Accept, r: IoResult<()>|
            *op == before && #[trigger] call_ensures(Accept::as_sockaddr, (op, found, &remote), r) ==> {
                &&& r is Ok <==> found == Ok::<bool, IoError>(true)
                &&& r is Ok ==> final(op).addr.len == remote@.len() && forall|i: int|
                    0 <= i < remote@.len() ==> #[trigger] final(op).addr.storage.bytes@[i] == remote@[i]
                &&& r is Err ==> final(op).addr == before.addr
                &&& final(op).accept_fd == before.accept_fd
            },
{
    assert forall|op: &mut Accept, r: IoResult<()>|
        *op == before && r is Ok && #[trigger] call_ensures(
            Accept::as_sockaddr,
            (op, found, &remote),
            r,
        ) implies final(op).addr.len == remote@.len() && forall|i: int|
        0 <= i < remote@.len() ==> #[trigger] final(op).addr.storage.bytes@[i] == remote@[i] by {
        let addr = final(op).addr;
        assert(addr.bytes() == remote@);
        assert(addr.bytes().len() == addr.len);
        assert forall|i: int| 0 <= i < remote@.len() implies #[trigger] addr.storage.bytes@[i] == remote@[i] by {
            assert(addr.bytes()[i] == remote@[i]);
        }
    }
}

/// A connect of which nothing is known is about no socket and no address.
pub proof fn law_default_connect(op: Connect)
    requires
        call_ensures(<Connect as Default>::default, (), op),
    ensures
        op.fd.raw_fd == -1isize,
        op.addr.len == 0,
{
}

} // verus!
