//! The system calls that the operations make.
//!
//! An operation says which call to make; [`finish`] says what the call came to.
use vstd::prelude::*;

use crate::addr::{zeroed, AddrStorage, SockAddr, SOCKADDR_STORAGE_LEN};
use crate::buf::{AsIoSlices, BufWrapper, BufWrapperMut, IntoInner, IoBuf, IoBufMut};
use crate::driver::attempts::TIMER_PENDING;
use crate::driver::iocp::status::{
    failed_call, win32_pending_result, win32_result, winsock_result, WSAENOTSOCK,
};
use crate::driver::iocp::{Fd, OpCode, Overlapped, RawFd, INVALID_FD};
use crate::driver::time::Timeout;
use crate::error::{Extension, IoError, IoResult};
use crate::poll::Poll;
use crate::time::Duration;

verus! {

/// A system call, but for its pointers.
#[derive(Clone, Copy, Debug, PartialEq, Eq, Structural)]
pub enum Call {
    /// Read up to `len` bytes.
    ReadFile { fd: RawFd, len: u32 },
    /// Write `len` bytes.
    WriteFile { fd: RawFd, len: u32 },
    /// Connect to an address of `addr_len` bytes.
    ConnectEx { fd: RawFd, addr_len: u32 },
    /// Flush the file.
    FlushFileBuffers { fd: RawFd },
    /// Accept a connection; there is room for an address of `addr_len` bytes.
    AcceptEx { fd: RawFd, accept_fd: RawFd, addr_len: u32 },
    /// Receive into `count` buffers.
    WsaRecv { fd: RawFd, count: u32 },
    /// Send from `count` buffers.
    WsaSend { fd: RawFd, count: u32 },
    /// Receive into `count` buffers, and an address of up to `addr_len` bytes.
    WsaRecvFrom { fd: RawFd, count: u32, addr_len: u32 },
    /// Send from `count` buffers to an address of `addr_len` bytes.
    WsaSendTo { fd: RawFd, count: u32, addr_len: u32 },
    /// Wait for a client of a named pipe.
    ConnectNamedPipe { fd: RawFd },
}

/// The call transfers nothing by itself.
pub open spec fn transfers_nothing(call: Call) -> bool {
    call is FlushFileBuffers || call is ConnectNamedPipe
}

/// The call failed, going by what it returned: socket calls return 0 on success, the others on failure.
pub open spec fn call_failed(call: Call, res: i32) -> bool {
    if call is WsaRecv || call is WsaSend || call is WsaRecvFrom || call is WsaSendTo {
        res != 0
    } else {
        res == 0
    }
}

/// What a call came to that returned `res`, left `error` behind and reported `transferred` bytes. The results of
/// reads, writes and socket transfers are queried later: a success of theirs is still pending.
pub open spec fn finished(call: Call, res: i32, error: u32, transferred: u32) -> Poll<IoResult<usize>> {
    let counted: u32 = if transfers_nothing(call) || call is ReadFile || call is WriteFile {
        0
    } else {
        transferred
    };
    if call_failed(call, res) {
        failed_call(error, counted)
    } else if call is ConnectEx || call is FlushFileBuffers || call is AcceptEx
        || call is ConnectNamedPipe {
        Poll::Ready(Ok(counted as usize))
    } else {
        Poll::Pending
    }
}

/// What a call came to that returned `res`, left `error` behind and reported `transferred` bytes.
pub fn finish(call: Call, res: i32, error: u32, transferred: u32) -> (r: Poll<IoResult<usize>>)
    requires
        call_failed(call, res) ==> error != 0,
    ensures
        r == finished(call, res, error, transferred),
{
    match call {
        Call::ReadFile { .. } | Call::WriteFile { .. } => win32_pending_result(res, error),
        Call::ConnectEx { .. } | Call::AcceptEx { .. } => win32_result(res, error, transferred),
        Call::FlushFileBuffers { .. } | Call::ConnectNamedPipe { .. } => win32_result(res, error, 0),
        Call::WsaRecv { .. } | Call::WsaSend { .. } | Call::WsaRecvFrom { .. }
        | Call::WsaSendTo { .. } => winsock_result(res, error, transferred),
    }
}

/// A length as a call takes it: what is left of it in 32 bits.
pub open spec fn call_len(len: nat) -> u32 {
    (len % 0x1_0000_0000) as u32
}

fn to_call_len(len: usize) -> (call: u32)
    ensures
        call == call_len(len as nat),
{
    (len as u64 % 0x1_0000_0000) as u32
}

/// An entry point that was looked up: `found` says whether the library has it, or why it could not be looked
/// up.
pub open spec fn looked_up(found: IoResult<bool>, extension: Extension) -> IoResult<()> {
    match found {
        Err(error) => Err(error),
        Ok(false) => Err(IoError::MissingExtension(extension)),
        Ok(true) => Ok(()),
    }
}

/// Whether an entry point can be called.
pub fn require_extension(found: IoResult<bool>, extension: Extension) -> (r: IoResult<()>)
    ensures
        r == looked_up(found, extension),
{
    match found {
        Err(error) => Err(error),
        Ok(present) => {
            if present {
                Ok(())
            } else {
                Err(IoError::MissingExtension(extension))
            }
        },
    }
}

/// An overlapped structure whose user data is not known yet.
pub open spec fn unassigned() -> Overlapped {
    Overlapped { internal: 0, offset: 0, offset_high: 0, user_data: usize::MAX }
}

/// The overlapped structure with the user data of its operation.
pub open spec fn assigned(overlapped: Overlapped, user_data: usize) -> Overlapped {
    Overlapped { user_data, ..overlapped }
}

/// The overlapped structure with the position that its operation reads or writes at.
pub open spec fn positioned(overlapped: Overlapped, user_data: usize, offset: usize) -> Overlapped {
    Overlapped {
        offset: (offset as int % 0x1_0000_0000) as u32,
        offset_high: (offset as int / 0x1_0000_0000) as u32,
        user_data,
        ..overlapped
    }
}

/// The two parts of a position make it up.
pub proof fn law_offset_parts(overlapped: Overlapped, user_data: usize, offset: usize)
    ensures
        positioned(overlapped, user_data, offset).offset + positioned(
            overlapped,
            user_data,
            offset,
        ).offset_high * 0x1_0000_0000 == offset,
{
}

/// Sets the position that an operation reads or writes at.
fn set_position(overlapped: &mut Overlapped, user_data: usize, offset: usize)
    ensures
        *final(overlapped) == positioned(*old(overlapped), user_data, offset),
{
    overlapped.user_data = user_data;
    overlapped.offset = (offset as u64 % 0x1_0000_0000) as u32;
    overlapped.offset_high = (offset as u64 / 0x1_0000_0000) as u32;
}

/// Read a nonseekable file into specified buffer.
#[derive(Debug)]
pub struct Read<T> {
    /// The descriptor.
    pub fd: Fd,
    /// The buffer.
    pub buffer: T,
    /// What is shared with the system.
    pub overlapped: Overlapped,
}

impl<T> Read<T> {
    /// Creates [`Read`].
    pub fn new(fd: Fd, buffer: T) -> (op: Self)
        ensures
            op.fd == fd,
            op.buffer == buffer,
            op.overlapped == unassigned(),
    {
        Read { fd, buffer, overlapped: Overlapped::new(usize::MAX) }
    }
}

impl<T> IntoInner for Read<T> {
    type Inner = T;

    open spec fn inner(self) -> T {
        self.buffer
    }

    fn into_inner(self) -> (inner: T) {
        self.buffer
    }
}

impl<T: IoBufMut> Read<T> {
    /// Says which call to make.
    pub fn prepare(&mut self, user_data: usize) -> (call: Call)
        ensures
            final(self).fd == old(self).fd,
            final(self).buffer == old(self).buffer,
            final(self).overlapped == assigned(old(self).overlapped, user_data),
            call == (Call::ReadFile {
                fd: old(self).fd.raw_fd,
                len: call_len(old(self).buffer.room()),
            }),
    {
        self.overlapped.user_data = user_data;
        Call::ReadFile { fd: self.fd.as_raw_fd(), len: to_call_len(self.buffer.buf_capacity()) }
    }
}

/// Read a file at specified position into specified buffer.
#[derive(Debug)]
pub struct ReadAt<T> {
    /// The descriptor.
    pub fd: Fd,
    /// The position in the file.
    pub offset: usize,
    /// The buffer.
    pub buffer: T,
    /// What is shared with the system.
    pub overlapped: Overlapped,
}

impl<T> ReadAt<T> {
    /// Creates [`ReadAt`].
    pub fn new(fd: Fd, offset: usize, buffer: T) -> (op: Self)
        ensures
            op.fd == fd,
            op.offset == offset,
            op.buffer == buffer,
            op.overlapped == unassigned(),
    {
        ReadAt { fd, offset, buffer, overlapped: Overlapped::new(usize::MAX) }
    }
}

impl<T> IntoInner for ReadAt<T> {
    type Inner = T;

    open spec fn inner(self) -> T {
        self.buffer
    }

    fn into_inner(self) -> (inner: T) {
        self.buffer
    }
}

impl<T: IoBufMut> ReadAt<T> {
    /// Says which call to make.
    pub fn prepare(&mut self, user_data: usize) -> (call: Call)
        ensures
            final(self).fd == old(self).fd,
            final(self).offset == old(self).offset,
            final(self).buffer == old(self).buffer,
            final(self).overlapped == positioned(old(self).overlapped, user_data, old(self).offset),
            call == (Call::ReadFile {
                fd: old(self).fd.raw_fd,
                len: call_len(old(self).buffer.room()),
            }),
    {
        set_position(&mut self.overlapped, user_data, self.offset);
        Call::ReadFile { fd: self.fd.as_raw_fd(), len: to_call_len(self.buffer.buf_capacity()) }
    }
}

/// Write a nonseekable file from specified buffer.
#[derive(Debug)]
pub struct Write<T> {
    /// The descriptor.
    pub fd: Fd,
    /// The buffer.
    pub buffer: T,
    /// What is shared with the system.
    pub overlapped: Overlapped,
}

impl<T> Write<T> {
    /// Creates [`Write`].
    pub fn new(fd: Fd, buffer: T) -> (op: Self)
        ensures
            op.fd == fd,
            op.buffer == buffer,
            op.overlapped == unassigned(),
    {
        Write { fd, buffer, overlapped: Overlapped::new(usize::MAX) }
    }
}

impl<T> IntoInner for Write<T> {
    type Inner = T;

    open spec fn inner(self) -> T {
        self.buffer
    }

    fn into_inner(self) -> (inner: T) {
        self.buffer
    }
}

impl<T: IoBuf> Write<T> {
    /// Says which call to make.
    pub fn prepare(&mut self, user_data: usize) -> (call: Call)
        ensures
            final(self).fd == old(self).fd,
            final(self).buffer == old(self).buffer,
            final(self).overlapped == assigned(old(self).overlapped, user_data),
            call == (Call::WriteFile {
                fd: old(self).fd.raw_fd,
                len: call_len(old(self).buffer.filled()),
            }),
    {
        self.overlapped.user_data = user_data;
        Call::WriteFile { fd: self.fd.as_raw_fd(), len: to_call_len(self.buffer.buf_len()) }
    }
}

/// Write a file at specified position from specified buffer.
#[derive(Debug)]
pub struct WriteAt<T> {
    /// The descriptor.
    pub fd: Fd,
    /// The position in the file.
    pub offset: usize,
    /// The buffer.
    pub buffer: T,
    /// What is shared with the system.
    pub overlapped: Overlapped,
}

impl<T> WriteAt<T> {
    /// Creates [`WriteAt`].
    pub fn new(fd: Fd, offset: usize, buffer: T) -> (op: Self)
        ensures
            op.fd == fd,
            op.offset == offset,
            op.buffer == buffer,
            op.overlapped == unassigned(),
    {
        WriteAt { fd, offset, buffer, overlapped: Overlapped::new(usize::MAX) }
    }
}

impl<T> IntoInner for WriteAt<T> {
    type Inner = T;

    open spec fn inner(self) -> T {
        self.buffer
    }

    fn into_inner(self) -> (inner: T) {
        self.buffer
    }
}

impl<T: IoBuf> WriteAt<T> {
    /// Says which call to make.
    pub fn prepare(&mut self, user_data: usize) -> (call: Call)
        ensures
            final(self).fd == old(self).fd,
            final(self).offset == old(self).offset,
            final(self).buffer == old(self).buffer,
            final(self).overlapped == positioned(old(self).overlapped, user_data, old(self).offset),
            call == (Call::WriteFile {
                fd: old(self).fd.raw_fd,
                len: call_len(old(self).buffer.filled()),
            }),
    {
        set_position(&mut self.overlapped, user_data, self.offset);
        Call::WriteFile { fd: self.fd.as_raw_fd(), len: to_call_len(self.buffer.buf_len()) }
    }
}

/// Receive a single piece of data into scattered buffers from remote.
#[derive(Debug)]
pub struct RecvVectoredImpl<T> {
    /// The descriptor.
    pub fd: Fd,
    /// The buffer.
    pub buffer: T,
    /// What is shared with the system.
    pub overlapped: Overlapped,
}

impl<T> RecvVectoredImpl<T> {
    /// Creates [`RecvVectoredImpl`].
    pub fn new(fd: Fd, buffer: T) -> (op: Self)
        ensures
            op.fd == fd,
            op.buffer == buffer,
            op.overlapped == unassigned(),
    {
        RecvVectoredImpl { fd, buffer, overlapped: Overlapped::new(usize::MAX) }
    }
}

impl<T> IntoInner for RecvVectoredImpl<T> {
    type Inner = T;

    open spec fn inner(self) -> T {
        self.buffer
    }

    fn into_inner(self) -> (inner: T) {
        self.buffer
    }
}

impl<T: AsIoSlices> RecvVectoredImpl<T> {
    /// Says which call to make.
    pub fn prepare(&mut self, user_data: usize) -> (call: Call)
        ensures
            final(self).fd == old(self).fd,
            final(self).buffer == old(self).buffer,
            final(self).overlapped == assigned(old(self).overlapped, user_data),
            call == (Call::WsaRecv {
                fd: old(self).fd.raw_fd,
                count: call_len(old(self).buffer.slices()),
            }),
    {
        self.overlapped.user_data = user_data;
        Call::WsaRecv { fd: self.fd.as_raw_fd(), count: to_call_len(self.buffer.io_slices()) }
    }
}

/// Send a single piece of data to remote using scattered buffers.
#[derive(Debug)]
pub struct SendVectoredImpl<T> {
    /// The descriptor.
    pub fd: Fd,
    /// The buffer.
    pub buffer: T,
    /// What is shared with the system.
    pub overlapped: Overlapped,
}

impl<T> SendVectoredImpl<T> {
    /// Creates [`SendVectoredImpl`].
    pub fn new(fd: Fd, buffer: T) -> (op: Self)
        ensures
            op.fd == fd,
            op.buffer == buffer,
            op.overlapped == unassigned(),
    {
        SendVectoredImpl { fd, buffer, overlapped: Overlapped::new(usize::MAX) }
    }
}

impl<T> IntoInner for SendVectoredImpl<T> {
    type Inner = T;

    open spec fn inner(self) -> T {
        self.buffer
    }

    fn into_inner(self) -> (inner: T) {
        self.buffer
    }
}

impl<T: AsIoSlices> SendVectoredImpl<T> {
    /// Says which call to make.
    pub fn prepare(&mut self, user_data: usize) -> (call: Call)
        ensures
            final(self).fd == old(self).fd,
            final(self).buffer == old(self).buffer,
            final(self).overlapped == assigned(old(self).overlapped, user_data),
            call == (Call::WsaSend {
                fd: old(self).fd.raw_fd,
                count: call_len(old(self).buffer.slices()),
            }),
    {
        self.overlapped.user_data = user_data;
        Call::WsaSend { fd: self.fd.as_raw_fd(), count: to_call_len(self.buffer.io_slices()) }
    }
}

/// Receive a single piece of data in a single buffer from remote.
#[derive(Debug)]
pub struct Recv<T> {
    /// The operation with its buffer as the only one.
    pub inner: RecvVectoredImpl<BufWrapperMut<T>>,
}

impl<T> Recv<T> {
    /// Creates [`Recv`].
    pub fn new(fd: Fd, buffer: T) -> (op: Self)
        ensures
            op.inner.fd == fd,
            op.inner.buffer.buffer == buffer,
            op.inner.overlapped == unassigned(),
    {
        Recv { inner: RecvVectoredImpl::new(fd, BufWrapperMut::new(buffer)) }
    }

    /// Says which call to make.
    pub fn prepare(&mut self, user_data: usize) -> (call: Call)
        ensures
            final(self).inner.fd == old(self).inner.fd,
            final(self).inner.buffer == old(self).inner.buffer,
            final(self).inner.overlapped == assigned(old(self).inner.overlapped, user_data),
            call == (Call::WsaRecv { fd: old(self).inner.fd.raw_fd, count: 1 }),
    {
        self.inner.prepare(user_data)
    }
}

impl<T> IntoInner for Recv<T> {
    type Inner = T;

    open spec fn inner(self) -> T {
        self.inner.buffer.buffer
    }

    fn into_inner(self) -> (inner: T) {
        self.inner.into_inner().into_inner()
    }
}

/// Send a single piece of data from a single buffer to remote.
#[derive(Debug)]
pub struct Send<T> {
    /// The operation with its buffer as the only one.
    pub inner: SendVectoredImpl<BufWrapper<T>>,
}

impl<T> Send<T> {
    /// Creates [`Send`].
    pub fn new(fd: Fd, buffer: T) -> (op: Self)
        ensures
            op.inner.fd == fd,
            op.inner.buffer.buffer == buffer,
            op.inner.overlapped == unassigned(),
    {
        Send { inner: SendVectoredImpl::new(fd, BufWrapper::new(buffer)) }
    }

    /// Says which call to make.
    pub fn prepare(&mut self, user_data: usize) -> (call: Call)
        ensures
            final(self).inner.fd == old(self).inner.fd,
            final(self).inner.buffer == old(self).inner.buffer,
            final(self).inner.overlapped == assigned(old(self).inner.overlapped, user_data),
            call == (Call::WsaSend { fd: old(self).inner.fd.raw_fd, count: 1 }),
    {
        self.inner.prepare(user_data)
    }
}

impl<T> IntoInner for Send<T> {
    type Inner = T;

    open spec fn inner(self) -> T {
        self.inner.buffer.buffer
    }

    fn into_inner(self) -> (inner: T) {
        self.inner.into_inner().into_inner()
    }
}

/// Receive a single piece of data and source address using scattered buffers.
#[derive(Debug)]
pub struct RecvMsgImpl<T> {
    /// The descriptor.
    pub fd: Fd,
    /// The buffers.
    pub buffer: T,
    /// Where the source address is put.
    pub addr: AddrStorage,
    /// How many bytes it has, or may have.
    pub addr_len: u32,
    /// What is shared with the system.
    pub overlapped: Overlapped,
}

impl<T> RecvMsgImpl<T> {
    /// Creates [`RecvMsgImpl`].
    pub fn new(fd: Fd, buffer: T) -> (op: Self)
        ensures
            op.fd == fd,
            op.buffer == buffer,
            op.addr.bytes@ == zeroed(),
            op.addr_len == SOCKADDR_STORAGE_LEN,
            op.overlapped == unassigned(),
    {
        RecvMsgImpl {
            fd,
            buffer,
            addr: AddrStorage::new(),
            addr_len: SOCKADDR_STORAGE_LEN,
            overlapped: Overlapped::new(usize::MAX),
        }
    }
}

impl<T> IntoInner for RecvMsgImpl<T> {
    type Inner = (T, SockAddr);

    open spec fn inner(self) -> (T, SockAddr) {
        (self.buffer, SockAddr { storage: self.addr, len: self.addr_len })
    }

    fn into_inner(self) -> (inner: (T, SockAddr)) {
        (self.buffer, SockAddr::new(self.addr, self.addr_len))
    }
}

impl<T: AsIoSlices> RecvMsgImpl<T> {
    /// Says which call to make.
    pub fn prepare(&mut self, user_data: usize) -> (call: Call)
        ensures
            final(self).fd == old(self).fd,
            final(self).buffer == old(self).buffer,
            final(self).addr == old(self).addr,
            final(self).addr_len == old(self).addr_len,
            final(self).overlapped == assigned(old(self).overlapped, user_data),
            call == (Call::WsaRecvFrom {
                fd: old(self).fd.raw_fd,
                count: call_len(old(self).buffer.slices()),
                addr_len: old(self).addr_len,
            }),
    {
        self.overlapped.user_data = user_data;
        Call::WsaRecvFrom {
            fd: self.fd.as_raw_fd(),
            count: to_call_len(self.buffer.io_slices()),
            addr_len: self.addr_len,
        }
    }
}

/// Send a single piece of data from scattered buffers to the specified address.
#[derive(Debug)]
pub struct SendMsgImpl<T> {
    /// The descriptor.
    pub fd: Fd,
    /// The buffers.
    pub buffer: T,
    /// The address.
    pub addr: SockAddr,
    /// What is shared with the system.
    pub overlapped: Overlapped,
}

impl<T> SendMsgImpl<T> {
    /// Creates [`SendMsgImpl`].
    pub fn new(fd: Fd, buffer: T, addr: SockAddr) -> (op: Self)
        ensures
            op.fd == fd,
            op.buffer == buffer,
            op.addr == addr,
            op.overlapped == unassigned(),
    {
        SendMsgImpl { fd, buffer, addr, overlapped: Overlapped::new(usize::MAX) }
    }
}

impl<T> IntoInner for SendMsgImpl<T> {
    type Inner = T;

    open spec fn inner(self) -> T {
        self.buffer
    }

    fn into_inner(self) -> (inner: T) {
        self.buffer
    }
}

impl<T: AsIoSlices> SendMsgImpl<T> {
    /// Says which call to make.
    pub fn prepare(&mut self, user_data: usize) -> (call: Call)
        ensures
            final(self).fd == old(self).fd,
            final(self).buffer == old(self).buffer,
            final(self).addr == old(self).addr,
            final(self).overlapped == assigned(old(self).overlapped, user_data),
            call == (Call::WsaSendTo {
                fd: old(self).fd.raw_fd,
                count: call_len(old(self).buffer.slices()),
                addr_len: old(self).addr.len,
            }),
    {
        self.overlapped.user_data = user_data;
        Call::WsaSendTo {
            fd: self.fd.as_raw_fd(),
            count: to_call_len(self.buffer.io_slices()),
            addr_len: self.addr.len(),
        }
    }
}

/// Receive a single piece of data and source address using a single buffer.
#[derive(Debug)]
pub struct RecvFrom<T> {
    /// The operation with its buffer as the only one.
    pub inner: RecvMsgImpl<BufWrapperMut<T>>,
}

impl<T> RecvFrom<T> {
    /// Creates [`RecvFrom`].
    pub fn new(fd: Fd, buffer: T) -> (op: Self)
        ensures
            op.inner.fd == fd,
            op.inner.buffer.buffer == buffer,
            op.inner.addr.bytes@ == zeroed(),
            op.inner.addr_len == SOCKADDR_STORAGE_LEN,
            op.inner.overlapped == unassigned(),
    {
        RecvFrom { inner: RecvMsgImpl::new(fd, BufWrapperMut::new(buffer)) }
    }

    /// Says which call to make.
    pub fn prepare(&mut self, user_data: usize) -> (call: Call)
        ensures
            final(self).inner.fd == old(self).inner.fd,
            final(self).inner.buffer == old(self).inner.buffer,
            final(self).inner.addr == old(self).inner.addr,
            final(self).inner.addr_len == old(self).inner.addr_len,
            final(self).inner.overlapped == assigned(old(self).inner.overlapped, user_data),
            call == (Call::WsaRecvFrom { fd: old(self).inner.fd.raw_fd, count: 1, addr_len: old(self).inner.addr_len }),
    {
        self.inner.prepare(user_data)
    }
}

impl<T> IntoInner for RecvFrom<T> {
    type Inner = (T, SockAddr);

    open spec fn inner(self) -> (T, SockAddr) {
        (
            self.inner.buffer.buffer,
            SockAddr { storage: self.inner.addr, len: self.inner.addr_len },
        )
    }

    fn into_inner(self) -> (inner: (T, SockAddr)) {
        let (bufwrapper, sockaddr) = self.inner.into_inner();
        (bufwrapper.into_inner(), sockaddr)
    }
}

/// Send a single piece of data from a single buffer to the specified address.
#[derive(Debug)]
pub struct SendTo<T> {
    /// The operation with its buffer as the only one.
    pub inner: SendMsgImpl<BufWrapper<T>>,
}

impl<T> SendTo<T> {
    /// Creates [`SendTo`].
    pub fn new(fd: Fd, buffer: T, addr: SockAddr) -> (op: Self)
        ensures
            op.inner.fd == fd,
            op.inner.buffer.buffer == buffer,
            op.inner.addr == addr,
            op.inner.overlapped == unassigned(),
    {
        SendTo { inner: SendMsgImpl::new(fd, BufWrapper::new(buffer), addr) }
    }

    /// Says which call to make.
    pub fn prepare(&mut self, user_data: usize) -> (call: Call)
        ensures
            final(self).inner.fd == old(self).inner.fd,
            final(self).inner.buffer == old(self).inner.buffer,
            final(self).inner.addr == old(self).inner.addr,
            final(self).inner.overlapped == assigned(old(self).inner.overlapped, user_data),
            call == (Call::WsaSendTo { fd: old(self).inner.fd.raw_fd, count: 1, addr_len: old(self).inner.addr.len }),
    {
        self.inner.prepare(user_data)
    }
}

impl<T> IntoInner for SendTo<T> {
    type Inner = T;

    open spec fn inner(self) -> T {
        self.inner.buffer.buffer
    }

    fn into_inner(self) -> (inner: T) {
        self.inner.into_inner().into_inner()
    }
}

/// Connect to a remote address.
#[derive(Debug)]
pub struct Connect {
    /// The descriptor.
    pub fd: Fd,
    /// The address.
    pub addr: SockAddr,
    /// What is shared with the system.
    pub overlapped: Overlapped,
}

impl Connect {
    /// Creates [`Connect`]. `fd` should be bound.
    pub fn new(fd: Fd, addr: SockAddr) -> (op: Self)
        ensures
            op.fd == fd,
            op.addr == addr,
            op.overlapped == unassigned(),
    {
        Connect { fd, addr, overlapped: Overlapped::new(usize::MAX) }
    }

    /// Says which call to make, where the entry point for it was looked up.
    pub fn prepare(&mut self, user_data: usize, found: IoResult<bool>) -> (r: IoResult<Call>)
        ensures
            final(self).fd == old(self).fd,
            final(self).addr == old(self).addr,
            final(self).overlapped == assigned(old(self).overlapped, user_data),
            r == match looked_up(found, Extension::ConnectEx) {
                Err(error) => Err(error),
                Ok(()) => Ok(
                    Call::ConnectEx { fd: old(self).fd.raw_fd, addr_len: old(self).addr.len },
                ),
            },
    {
        self.overlapped.user_data = user_data;
        match require_extension(found, Extension::ConnectEx) {
            Err(error) => Err(error),
            Ok(()) => Ok(
                Call::ConnectEx { fd: self.fd.as_raw_fd(), addr_len: self.addr.len() },
            ),
        }
    }

    /// Post operation socket handling. `updated` is what setting the connect context, which comes after a
    /// success, came to.
    pub fn on_connect(self, result: IoResult<usize>, updated: IoResult<()>) -> (r: IoResult<()>)
        ensures
            r == match result {
                Err(error) => Err(error),
                Ok(_) => updated,
            },
    {
        match result {
            Err(error) => Err(error),
            Ok(_) => updated,
        }
    }
}

impl Default for Connect {
    /// An operation that is not about any socket yet.
    fn default() -> (op: Self)
        ensures
            op.fd.raw_fd == INVALID_FD,
            op.addr.storage.bytes@ == zeroed(),
            op.addr.len == 0,
            op.overlapped == unassigned(),
    {
        Connect {
            fd: Fd::from_raw(INVALID_FD),
            addr: SockAddr::new(AddrStorage::new(), 0),
            overlapped: Overlapped::new(usize::MAX),
        }
    }
}

/// Sync data to the disk.
#[derive(Debug)]
pub struct Sync {
    /// The descriptor.
    pub fd: Fd,
    /// The file metadata need not be synchronized.
    pub datasync: bool,
}

impl Sync {
    /// Creates [`Sync`].
    ///
    /// If `datasync` is `true`, the file metadata may not be synchronized. Here it is in any case.
    pub fn new(fd: Fd, datasync: bool) -> (op: Self)
        ensures
            op.fd == fd,
            op.datasync == datasync,
    {
        Sync { fd, datasync }
    }

    /// Says which call to make.
    pub fn prepare(&mut self, _user_data: usize) -> (call: Call)
        ensures
            *final(self) == *old(self),
            call == (Call::FlushFileBuffers { fd: old(self).fd.raw_fd }),
    {
        Call::FlushFileBuffers { fd: self.fd.as_raw_fd() }
    }
}

/// Connect a named pipe server.
#[derive(Debug)]
pub struct ConnectNamedPipe {
    /// The descriptor.
    pub fd: Fd,
    /// What is shared with the system.
    pub overlapped: Overlapped,
}

impl ConnectNamedPipe {
    /// Creates [`ConnectNamedPipe`].
    pub fn new(fd: Fd) -> (op: Self)
        ensures
            op.fd == fd,
            op.overlapped == unassigned(),
    {
        ConnectNamedPipe { fd, overlapped: Overlapped::new(usize::MAX) }
    }

    /// Says which call to make.
    pub fn prepare(&mut self, user_data: usize) -> (call: Call)
        ensures
            final(self).fd == old(self).fd,
            final(self).overlapped == assigned(old(self).overlapped, user_data),
            call == (Call::ConnectNamedPipe { fd: old(self).fd.raw_fd }),
    {
        self.overlapped.user_data = user_data;
        Call::ConnectNamedPipe { fd: self.fd.as_raw_fd() }
    }
}

/// A socket that there is none of yet.
pub const INVALID_SOCKET: RawFd = -1;

/// The kind of socket that a connection is accepted on.
#[derive(Clone, Copy, Debug, PartialEq, Eq, Structural)]
pub struct AcceptSocketOpts {
    /// The domain.
    pub domain: i32,
    /// The type.
    pub ty: i32,
    /// The protocol.
    pub protocol: Option<i32>,
}

/// Accept a connection.
///
/// It's possible to reinit the data structure and reuse it for the following accepts.
#[derive(Debug)]
pub struct Accept {
    /// The descriptor.
    pub fd: Fd,
    /// The socket that the connection is accepted on.
    pub accept_fd: RawFd,
    /// The kind of socket to create for it, if it is to be created.
    pub accept_sock_opts: Option<AcceptSocketOpts>,
    /// Where the remote address is put.
    pub addr: SockAddr,
    /// What is shared with the system.
    pub overlapped: Overlapped,
}

impl Accept {
    /// There is room for any address.
    pub open spec fn wf(&self) -> bool {
        self.addr.wf()
    }

    /// Creates [`Accept`] with listen socket options.
    ///
    /// Accept socket will be created on operation execution.
    pub fn with_socket_opts(fd: Fd, domain: i32, ty: i32, protocol: Option<i32>) -> (op: Self)
        ensures
            op.wf(),
            op.fd == fd,
            op.accept_fd == INVALID_SOCKET,
            op.accept_sock_opts == Some(AcceptSocketOpts { domain, ty, protocol }),
            op.addr.storage.bytes@ == zeroed(),
            op.addr.len == SOCKADDR_STORAGE_LEN,
            op.overlapped == unassigned(),
    {
        Accept {
            fd,
            accept_fd: INVALID_SOCKET,
            accept_sock_opts: Some(AcceptSocketOpts { domain, ty, protocol }),
            addr: SockAddr::new(AddrStorage::new(), SOCKADDR_STORAGE_LEN),
            overlapped: Overlapped::new(usize::MAX),
        }
    }

    /// Inits existing [`Accept`] for new accept operation.
    pub fn init_with_socket_opts(&mut self, fd: Fd, domain: i32, ty: i32, protocol: Option<i32>)
        ensures
            final(self).fd == fd,
            final(self).accept_fd == INVALID_SOCKET,
            final(self).accept_sock_opts == Some(AcceptSocketOpts { domain, ty, protocol }),
            final(self).addr == old(self).addr,
            final(self).overlapped == old(self).overlapped,
    {
        self.fd = fd;
        self.accept_fd = INVALID_SOCKET;
        self.accept_sock_opts = Some(AcceptSocketOpts { domain, ty, protocol });
    }

    /// Creates [`Accept`] with the provided accept socket fd. `accept_fd` should not be bound.
    pub fn new(fd: Fd, accept_fd: RawFd) -> (op: Self)
        ensures
            op.wf(),
            op.fd == fd,
            op.accept_fd == accept_fd,
            op.accept_sock_opts is None,
            op.addr.storage.bytes@ == zeroed(),
            op.addr.len == SOCKADDR_STORAGE_LEN,
            op.overlapped == unassigned(),
    {
        Accept {
            fd,
            accept_fd,
            accept_sock_opts: None,
            addr: SockAddr::new(AddrStorage::new(), SOCKADDR_STORAGE_LEN),
            overlapped: Overlapped::new(usize::MAX),
        }
    }

    /// A socket has to be created before a connection can be accepted.
    pub open spec fn lacks_socket(&self) -> bool {
        self.accept_fd == INVALID_SOCKET && self.accept_sock_opts is Some
    }

    /// The kind of socket to create before a connection can be accepted, if one has to be created.
    pub fn socket_to_create(&self) -> (opts: Option<AcceptSocketOpts>)
        ensures
            opts == if self.lacks_socket() {
                self.accept_sock_opts
            } else {
                None
            },
    {
        if self.accept_fd == INVALID_SOCKET {
            self.accept_sock_opts
        } else {
            None
        }
    }

    /// Says which call to make. `created` is what creating a socket, where that was necessary, came to, and
    /// `found` what looking up the entry point came to.
    pub fn prepare(
        &mut self,
        user_data: usize,
        created: IoResult<RawFd>,
        found: IoResult<bool>,
    ) -> (r: IoResult<Call>)
        ensures
            final(self).fd == old(self).fd,
            final(self).addr == old(self).addr,
            final(self).accept_sock_opts == old(self).accept_sock_opts,
            old(self).lacks_socket() && created is Err ==> *final(self) == *old(self) && r == Err::<
                Call,
                IoError,
            >(created->Err_0),
            !(old(self).lacks_socket() && created is Err) ==> {
                &&& final(self).accept_fd == if old(self).lacks_socket() {
                    created->Ok_0
                } else {
                    old(self).accept_fd
                }
                &&& final(self).overlapped == assigned(old(self).overlapped, user_data)
                &&& r == match looked_up(found, Extension::AcceptEx) {
                    Err(error) => Err(error),
                    Ok(()) => Ok(
                        Call::AcceptEx {
                            fd: old(self).fd.raw_fd,
                            accept_fd: final(self).accept_fd,
                            addr_len: SOCKADDR_STORAGE_LEN,
                        },
                    ),
                }
            },
    {
        if self.socket_to_create().is_some() {
            match created {
                Ok(socket) => {
                    self.accept_fd = socket;
                },
                Err(error) => {
                    return Err(error);
                },
            }
        }
        self.overlapped.user_data = user_data;
        match require_extension(found, Extension::AcceptEx) {
            Err(error) => Err(error),
            Ok(()) => Ok(
                Call::AcceptEx {
                    fd: self.fd.as_raw_fd(),
                    accept_fd: self.accept_fd,
                    addr_len: SOCKADDR_STORAGE_LEN,
                },
            ),
        }
    }

    /// Gets the remote address from where the system has put it. `found` is what looking up the entry point
    /// that tells where came to.
    pub fn as_sockaddr(&mut self, found: IoResult<bool>, remote: &Vec<u8>) -> (r: IoResult<()>)
        requires
            old(self).wf(),
            remote@.len() <= SOCKADDR_STORAGE_LEN,
        ensures
            final(self).wf(),
            final(self).fd == old(self).fd,
            final(self).accept_fd == old(self).accept_fd,
            final(self).accept_sock_opts == old(self).accept_sock_opts,
            final(self).overlapped == old(self).overlapped,
            r == looked_up(found, Extension::GetAcceptExSockAddrs),
            r is Ok ==> final(self).addr.bytes() == remote@,
            r is Err ==> final(self).addr == old(self).addr,
    {
        match require_extension(found, Extension::GetAcceptExSockAddrs) {
            Err(error) => Err(error),
            Ok(()) => {
                let mut i: usize = 0;
                while i < remote.len()
                    invariant
                        i <= remote@.len() <= SOCKADDR_STORAGE_LEN,
                        self.fd == old(self).fd,
                        self.accept_fd == old(self).accept_fd,
                        self.accept_sock_opts == old(self).accept_sock_opts,
                        self.overlapped == old(self).overlapped,
                        self.addr.storage.wf(),
                        self.addr.storage.bytes@.take(i as int) == remote@.take(i as int),
                    decreases remote@.len() - i,
                {
                    self.addr.storage.bytes.set(i, remote[i]);
                    proof {
                        assert(self.addr.storage.bytes@.take(i + 1) =~= remote@.take(i as int).push(
                            remote@[i as int],
                        ));
                        assert(remote@.take(i + 1) =~= remote@.take(i as int).push(
                            remote@[i as int],
                        ));
                    }
                    i += 1;
                }
                self.addr.len = remote.len() as u32;
                assert(self.addr.bytes() =~= remote@);
                Ok(())
            },
        }
    }

    /// Post operation socket handling: the accepted socket, with the remote address left in the operation.
    /// `updated` is what setting the accept context came to, and `found` what looking up the entry point that
    /// tells where the address is came to.
    pub fn on_accept(
        &mut self,
        result: IoResult<usize>,
        updated: IoResult<()>,
        found: IoResult<bool>,
        remote: &Vec<u8>,
    ) -> (r: IoResult<RawFd>)
        requires
            old(self).wf(),
            remote@.len() <= SOCKADDR_STORAGE_LEN,
        ensures
            final(self).wf(),
            final(self).fd == old(self).fd,
            final(self).accept_fd == old(self).accept_fd,
            final(self).accept_sock_opts == old(self).accept_sock_opts,
            final(self).overlapped == old(self).overlapped,
            r == match result {
                Err(error) => Err(error),
                Ok(_) => match updated {
                    Err(error) => Err(error),
                    Ok(()) => match looked_up(found, Extension::GetAcceptExSockAddrs) {
                        Err(error) => Err(error),
                        Ok(()) => Ok(old(self).accept_fd),
                    },
                },
            },
            r is Ok ==> final(self).addr.bytes() == remote@,
            r is Err ==> final(self).addr == old(self).addr,
    {
        match result {
            Err(error) => Err(error),
            Ok(_) => match updated {
                Err(error) => Err(error),
                Ok(()) => match self.as_sockaddr(found, remote) {
                    Err(error) => Err(error),
                    Ok(()) => Ok(self.accept_fd),
                },
            },
        }
    }
}

impl OpCode for Timeout {
    open spec fn delay(&self) -> Option<Duration> {
        Some(self.delay)
    }

    fn operate(&mut self, _user_data: usize) -> (attempt: Poll<IoResult<usize>>)
        ensures
            attempt == Poll::Ready(Ok::<usize, IoError>(TIMER_PENDING)),
            *final(self) == *old(self),
    {
        Poll::Ready(Ok(TIMER_PENDING))
    }

    fn timer_delay(&self) -> (delay: Duration) {
        self.delay
    }
}

/// The pending error of a socket: `rc` is what asking for it returned, `last_error` the error of the thread if
/// that failed, and `err_code` the pending error otherwise.
pub fn get_sockopt_error(rc: i32, last_error: i32, err_code: i32) -> (r: Result<(), i32>)
    ensures
        r == if rc != 0 {
            Err::<(), i32>(last_error)
        } else if err_code == 0 {
            Ok::<(), i32>(())
        } else {
            Err::<(), i32>(err_code)
        },
{
    if rc != 0 {
        Err(last_error)
    } else if err_code == 0 {
        Ok(())
    } else {
        Err(err_code)
    }
}

/// How to close a descriptor.
#[derive(Clone, Copy, Debug, PartialEq, Eq, Structural)]
pub enum Close {
    /// It is a file: close the handle.
    Handle,
    /// It is a socket: close it as such.
    Socket,
}

/// How to close a descriptor, given its pending error as a socket: what is no socket is a file. A socket is closed
/// whatever its pending error.
pub fn close_raw_fd(sockopt: Result<(), i32>) -> (close: Close)
    ensures
        close == match sockopt {
            Ok(()) => Close::Socket,
            Err(code) => if code == WSAENOTSOCK {
                Close::Handle
            } else {
                Close::Socket
            },
        },
{
    match sockopt {
        Ok(()) => Close::Socket,
        Err(code) => {
            if code == WSAENOTSOCK {
                Close::Handle
            } else {
                Close::Socket
            }
        },
    }
}

/// What closing a descriptor came to: `ret` is what the call returned, and `last_error` the error of the thread.
/// Closing a handle returns 0 on failure, closing a socket on success.
pub fn close_result(close: Close, ret: i32, last_error: i32) -> (r: IoResult<usize>)
    ensures
        r == match close {
            Close::Handle => if ret == 0 {
                Err::<usize, IoError>(IoError::Os(last_error))
            } else {
                Ok::<usize, IoError>(0)
            },
            Close::Socket => if ret != 0 {
                Err::<usize, IoError>(IoError::Os(last_error))
            } else {
                Ok::<usize, IoError>(0)
            },
        },
{
    match close {
        Close::Handle => {
            if ret == 0 {
                Err(IoError::Os(last_error))
            } else {
                Ok(0)
            }
        },
        Close::Socket => {
            if ret != 0 {
                Err(IoError::Os(last_error))
            } else {
                Ok(0)
            }
        },
    }
}

/// Consumes an object and acquires ownership of its raw fd.
pub trait IntoRawFd: Sized {
    /// The raw fd.
    open spec fn raw_fd(&self) -> RawFd {
        arbitrary()
    }

    /// Consumes this object, returning the raw underlying fd.
    fn into_raw_fd(self) -> (raw_fd: RawFd)
        ensures
            raw_fd == self.raw_fd(),
    ;
}

/// Takes a file or socket out to close it: the raw fd to close. It is an error if it was taken out before.
pub fn take_to_close<T: IntoRawFd>(value: &mut Option<T>) -> (r: IoResult<RawFd>)
    ensures
        *final(value) is None,
        r == match *old(value) {
            Some(object) => Ok::<RawFd, IoError>(object.raw_fd()),
            None => Err::<RawFd, IoError>(IoError::AlreadyClosed),
        },
{
    match value.take() {
        Some(object) => Ok(object.into_raw_fd()),
        None => Err(IoError::AlreadyClosed),
    }
}

} // verus!
