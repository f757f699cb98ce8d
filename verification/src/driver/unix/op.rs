//! The operations of the unix drivers.
use vstd::prelude::*;

use crate::addr::{zeroed, AddrStorage, SockAddr, SOCKADDR_STORAGE_LEN};
use crate::buf::{AsIoSlices, IntoInner};
use crate::driver::unix::{IntoFdOrFixed, RawFd};
use crate::error::IoResult;

verus! {

/// Read a nonseekable file into specified buffer.
#[derive(Debug)]
pub struct Read<F, T> {
    /// The descriptor.
    pub fd: F,
    /// The buffer.
    pub buffer: T,
}

impl<F, T> Read<F, T> {
    /// Creates [`Read`].
    pub fn new<I: IntoFdOrFixed<Target = F>>(fd: I, buffer: T) -> (op: Self)
        ensures
            op.fd == fd.target(),
            op.buffer == buffer,
    {
        Read { fd: fd.into(), buffer }
    }
}

impl<F, T> IntoInner for Read<F, T> {
    type Inner = T;

    open spec fn inner(self) -> T {
        self.buffer
    }

    fn into_inner(self) -> (inner: T) {
        self.buffer
    }
}

/// Read a file at specified position into specified buffer.
#[derive(Debug)]
pub struct ReadAt<F, T> {
    /// The descriptor.
    pub fd: F,
    /// The position in the file.
    pub offset: usize,
    /// The buffer.
    pub buffer: T,
}

impl<F, T> ReadAt<F, T> {
    /// Creates [`ReadAt`].
    pub fn new<I: IntoFdOrFixed<Target = F>>(fd: I, offset: usize, buffer: T) -> (op: Self)
        ensures
            op.fd == fd.target(),
            op.offset == offset,
            op.buffer == buffer,
    {
        ReadAt { fd: fd.into(), offset, buffer }
    }
}

impl<F, T> IntoInner for ReadAt<F, T> {
    type Inner = T;

    open spec fn inner(self) -> T {
        self.buffer
    }

    fn into_inner(self) -> (inner: T) {
        self.buffer
    }
}

/// Write a nonseekable file from specified buffer.
#[derive(Debug)]
pub struct Write<F, T> {
    /// The descriptor.
    pub fd: F,
    /// The buffer.
    pub buffer: T,
}

impl<F, T> Write<F, T> {
    /// Creates [`Write`].
    pub fn new<I: IntoFdOrFixed<Target = F>>(fd: I, buffer: T) -> (op: Self)
        ensures
            op.fd == fd.target(),
            op.buffer == buffer,
    {
        Write { fd: fd.into(), buffer }
    }
}

impl<F, T> IntoInner for Write<F, T> {
    type Inner = T;

    open spec fn inner(self) -> T {
        self.buffer
    }

    fn into_inner(self) -> (inner: T) {
        self.buffer
    }
}

/// Write a file at specified position from specified buffer.
#[derive(Debug)]
pub struct WriteAt<F, T> {
    /// The descriptor.
    pub fd: F,
    /// The position in the file.
    pub offset: usize,
    /// The buffer.
    pub buffer: T,
}

impl<F, T> WriteAt<F, T> {
    /// Creates [`WriteAt`].
    pub fn new<I: IntoFdOrFixed<Target = F>>(fd: I, offset: usize, buffer: T) -> (op: Self)
        ensures
            op.fd == fd.target(),
            op.offset == offset,
            op.buffer == buffer,
    {
        WriteAt { fd: fd.into(), offset, buffer }
    }
}

impl<F, T> IntoInner for WriteAt<F, T> {
    type Inner = T;

    open spec fn inner(self) -> T {
        self.buffer
    }

    fn into_inner(self) -> (inner: T) {
        self.buffer
    }
}

/// Receive a single piece of data in a single buffer from remote.
#[derive(Debug)]
pub struct Recv<F, T> {
    /// The descriptor.
    pub fd: F,
    /// The buffer.
    pub buffer: T,
}

impl<F, T> Recv<F, T> {
    /// Creates [`Recv`].
    pub fn new<I: IntoFdOrFixed<Target = F>>(fd: I, buffer: T) -> (op: Self)
        ensures
            op.fd == fd.target(),
            op.buffer == buffer,
    {
        Recv { fd: fd.into(), buffer }
    }
}

impl<F, T> IntoInner for Recv<F, T> {
    type Inner = T;

    open spec fn inner(self) -> T {
        self.buffer
    }

    fn into_inner(self) -> (inner: T) {
        self.buffer
    }
}

/// Receive a single piece of data into scattered buffers from remote.
#[derive(Debug)]
pub struct RecvVectoredImpl<F, T> {
    /// The descriptor.
    pub fd: F,
    /// The buffer.
    pub buffer: T,
}

impl<F, T> RecvVectoredImpl<F, T> {
    /// Creates [`RecvVectoredImpl`].
    pub fn new<I: IntoFdOrFixed<Target = F>>(fd: I, buffer: T) -> (op: Self)
        ensures
            op.fd == fd.target(),
            op.buffer == buffer,
    {
        RecvVectoredImpl { fd: fd.into(), buffer }
    }
}

impl<F, T> IntoInner for RecvVectoredImpl<F, T> {
    type Inner = T;

    open spec fn inner(self) -> T {
        self.buffer
    }

    fn into_inner(self) -> (inner: T) {
        self.buffer
    }
}

/// Send a single piece of data from a single buffer to remote.
#[derive(Debug)]
pub struct Send<F, T> {
    /// The descriptor.
    pub fd: F,
    /// The buffer.
    pub buffer: T,
}

impl<F, T> Send<F, T> {
    /// Creates [`Send`].
    pub fn new<I: IntoFdOrFixed<Target = F>>(fd: I, buffer: T) -> (op: Self)
        ensures
            op.fd == fd.target(),
            op.buffer == buffer,
    {
        Send { fd: fd.into(), buffer }
    }
}

impl<F, T> IntoInner for Send<F, T> {
    type Inner = T;

    open spec fn inner(self) -> T {
        self.buffer
    }

    fn into_inner(self) -> (inner: T) {
        self.buffer
    }
}

/// Send a single piece of data to remote using scattered buffers.
#[derive(Debug)]
pub struct SendVectoredImpl<F, T> {
    /// The descriptor.
    pub fd: F,
    /// The buffer.
    pub buffer: T,
}

impl<F, T> SendVectoredImpl<F, T> {
    /// Creates [`SendVectoredImpl`].
    pub fn new<I: IntoFdOrFixed<Target = F>>(fd: I, buffer: T) -> (op: Self)
        ensures
            op.fd == fd.target(),
            op.buffer == buffer,
    {
        SendVectoredImpl { fd: fd.into(), buffer }
    }
}

impl<F, T> IntoInner for SendVectoredImpl<F, T> {
    type Inner = T;

    open spec fn inner(self) -> T {
        self.buffer
    }

    fn into_inner(self) -> (inner: T) {
        self.buffer
    }
}

/// Connect to a remote address.
#[derive(Debug)]
pub struct Connect<F> {
    /// The descriptor.
    pub fd: F,
    /// The address.
    pub addr: SockAddr,
    /// The connection was asked for already.
    pub initiated: bool,
}

impl<F> Connect<F> {
    /// Creates [`Connect`]. `fd` should be bound.
    pub fn new<I: IntoFdOrFixed<Target = F>>(fd: I, addr: SockAddr) -> (op: Self)
        ensures
            op.fd == fd.target(),
            op.addr == addr,
            !op.initiated,
    {
        Connect { fd: fd.into(), addr, initiated: false }
    }

    /// Post operation socket handling: there is nothing to be done.
    pub fn on_connect(self, result: IoResult<usize>) -> (r: IoResult<()>)
        ensures
            r == match result {
                Ok(_) => Ok(()),
                Err(error) => Err(error),
            },
    {
        match result {
            Ok(_) => Ok(()),
            Err(error) => Err(error),
        }
    }
}

/// Accept a connection.
#[derive(Debug)]
pub struct Accept<F> {
    /// The descriptor.
    pub fd: F,
    /// Where the remote address is put.
    pub buffer: AddrStorage,
    /// How many bytes it has.
    pub addr_len: u32,
}

impl<F> Accept<F> {
    /// Tries to create [`Accept`].
    ///
    /// Common fallible interface of all drivers; here it does not fail, and the kind of the socket does not
    /// matter.
    pub fn try_new<I: IntoFdOrFixed<Target = F>>(
        fd: I,
        _domain: i32,
        _ty: i32,
        _protocol: Option<i32>,
    ) -> (r: IoResult<Self>)
        ensures
            r matches Ok(op) && op.fd == fd.target() && op.buffer.bytes@ == zeroed() && op.addr_len
                == SOCKADDR_STORAGE_LEN,
    {
        Ok(Self::new(fd))
    }

    /// Creates [`Accept`].
    pub fn new<I: IntoFdOrFixed<Target = F>>(fd: I) -> (op: Self)
        ensures
            op.fd == fd.target(),
            op.buffer.bytes@ == zeroed(),
            op.addr_len == SOCKADDR_STORAGE_LEN,
    {
        Accept { fd: fd.into(), buffer: AddrStorage::new(), addr_len: SOCKADDR_STORAGE_LEN }
    }

    /// Post operation socket handling: the accepted socket and its remote address. `configured` is what making
    /// the accepted socket nonblocking came to, where the driver needs that.
    pub fn on_accept(self, result: IoResult<usize>, configured: IoResult<()>) -> (r: IoResult<
        (RawFd, SockAddr),
    >)
        requires
            result matches Ok(socket) ==> socket <= i32::MAX,
        ensures
            r == match result {
                Err(error) => Err(error),
                Ok(socket) => match configured {
                    Err(error) => Err(error),
                    Ok(()) => Ok(
                        (
                            socket as i32,
                            SockAddr { storage: self.buffer, len: self.addr_len },
                        ),
                    ),
                },
            },
    {
        match result {
            Err(error) => Err(error),
            Ok(socket) => match configured {
                Err(error) => Err(error),
                Ok(()) => Ok((socket as RawFd, self.into_addr())),
            },
        }
    }

    /// Gets the remote address from the inner buffer.
    pub fn into_addr(self) -> (addr: SockAddr)
        ensures
            addr == (SockAddr { storage: self.buffer, len: self.addr_len }),
    {
        SockAddr::new(self.buffer, self.addr_len)
    }
}

/// Sync data to the disk.
#[derive(Debug)]
pub struct Sync<F> {
    /// The descriptor.
    pub fd: F,
    /// The file metadata need not be synchronized.
    pub datasync: bool,
}

impl<F> Sync<F> {
    /// Creates [`Sync`].
    ///
    /// If `datasync` is `true`, the file metadata may not be synchronized.
    pub fn new<I: IntoFdOrFixed<Target = F>>(fd: I, datasync: bool) -> (op: Self)
        ensures
            op.fd == fd.target(),
            op.datasync == datasync,
    {
        Sync { fd: fd.into(), datasync }
    }
}

/// The header of a message, but for its pointers.
#[derive(Clone, Copy, Debug, PartialEq, Eq, Structural)]
pub struct MsgHdr {
    /// How many bytes the address has, or may have.
    pub name_len: u32,
    /// How many buffers there are.
    pub iov_len: usize,
    /// How many bytes of control data there are.
    pub control_len: usize,
    /// Flags of a received message.
    pub flags: i32,
}

/// A header that was not set yet.
pub open spec fn unset_msg() -> MsgHdr {
    MsgHdr { name_len: 0, iov_len: 0, control_len: 0, flags: 0 }
}

/// Receive a single piece of data and source address using scattered buffers.
#[derive(Debug)]
pub struct RecvMsgImpl<F, T> {
    /// The descriptor.
    pub fd: F,
    /// The buffers.
    pub buffer: T,
    /// Where the source address is put.
    pub addr: AddrStorage,
    /// The header of the message.
    pub msg: MsgHdr,
}

impl<F, T: AsIoSlices> RecvMsgImpl<F, T> {
    /// Creates [`RecvMsgImpl`].
    pub fn new<I: IntoFdOrFixed<Target = F>>(fd: I, buffer: T) -> (op: Self)
        ensures
            op.fd == fd.target(),
            op.buffer == buffer,
            op.addr.bytes@ == zeroed(),
            op.msg == unset_msg(),
    {
        RecvMsgImpl {
            fd: fd.into(),
            buffer,
            addr: AddrStorage::new(),
            msg: MsgHdr { name_len: 0, iov_len: 0, control_len: 0, flags: 0 },
        }
    }

    /// The header to receive with: there is room for any address.
    pub open spec fn full_msg(&self) -> MsgHdr {
        MsgHdr {
            name_len: SOCKADDR_STORAGE_LEN,
            iov_len: self.buffer.slices() as usize,
            control_len: 0,
            flags: 0,
        }
    }

    /// Sets the header.
    pub fn set_msg(&mut self)
        ensures
            final(self).msg == old(self).full_msg(),
            final(self).fd == old(self).fd,
            final(self).buffer == old(self).buffer,
            final(self).addr == old(self).addr,
    {
        let iov_len: usize = self.buffer.io_slices();
        self.msg = MsgHdr { name_len: SOCKADDR_STORAGE_LEN, iov_len, control_len: 0, flags: 0 };
    }
}

impl<F, T> IntoInner for RecvMsgImpl<F, T> {
    type Inner = (T, SockAddr);

    open spec fn inner(self) -> (T, SockAddr) {
        (self.buffer, SockAddr { storage: self.addr, len: self.msg.name_len })
    }

    fn into_inner(self) -> (inner: (T, SockAddr)) {
        (self.buffer, SockAddr::new(self.addr, self.msg.name_len))
    }
}

/// Send a single piece of data from scattered buffers to the specified address.
#[derive(Debug)]
pub struct SendMsgImpl<F, T> {
    /// The descriptor.
    pub fd: F,
    /// The buffers.
    pub buffer: T,
    /// The address.
    pub addr: SockAddr,
    /// The header of the message.
    pub msg: MsgHdr,
}

impl<F, T: AsIoSlices> SendMsgImpl<F, T> {
    /// Creates [`SendMsgImpl`].
    pub fn new<I: IntoFdOrFixed<Target = F>>(fd: I, buffer: T, addr: SockAddr) -> (op: Self)
        ensures
            op.fd == fd.target(),
            op.buffer == buffer,
            op.addr == addr,
            op.msg == unset_msg(),
    {
        SendMsgImpl {
            fd: fd.into(),
            buffer,
            addr,
            msg: MsgHdr { name_len: 0, iov_len: 0, control_len: 0, flags: 0 },
        }
    }

    /// The header to send with.
    pub open spec fn full_msg(&self) -> MsgHdr {
        MsgHdr {
            name_len: self.addr.len,
            iov_len: self.buffer.slices() as usize,
            control_len: 0,
            flags: 0,
        }
    }

    /// Sets the header.
    pub fn set_msg(&mut self)
        ensures
            final(self).msg == old(self).full_msg(),
            final(self).fd == old(self).fd,
            final(self).buffer == old(self).buffer,
            final(self).addr == old(self).addr,
    {
        let iov_len: usize = self.buffer.io_slices();
        self.msg = MsgHdr { name_len: self.addr.len(), iov_len, control_len: 0, flags: 0 };
    }
}

impl<F, T> IntoInner for SendMsgImpl<F, T> {
    type Inner = T;

    open spec fn inner(self) -> T {
        self.buffer
    }

    fn into_inner(self) -> (inner: T) {
        self.buffer
    }
}

/// The accepted socket is the one that the call returned, with the remote address that it left, unless accepting it or
/// configuring it failed: then the first error is reported.
pub proof fn law_accepted_socket<F>(
    op: Accept<F>,
    result: IoResult<usize>,
    configured: IoResult<()>,
    r: IoResult<(RawFd, SockAddr)>,
    addr: SockAddr,
)
    requires
        result is Ok ==> result->Ok_0 <= i32::MAX,
        call_ensures(Accept::<F>::on_accept, (op, result, configured), r),
        call_ensures(Accept::<F>::into_addr, (op,), addr),
    ensures
        r is Ok <==> result is Ok && configured is Ok,
        r is Ok ==> r->Ok_0.0 == result->Ok_0 && r->Ok_0.1 == addr,
        result is Err ==> r->Err_0 == result->Err_0,
        result is Ok && configured is Err ==> r->Err_0 == configured->Err_0,
        addr.storage == op.buffer,
        addr.len == op.addr_len,
{
}

/// An accept has room for any address, on the given descriptor, whatever kind of socket it is for.
pub proof fn law_new_accept<F, I: IntoFdOrFixed<Target = F>>(
    fd: I,
    domain: i32,
    ty: i32,
    protocol: Option<i32>,
    r: IoResult<Accept<F>>,
    op: Accept<F>,
)
    requires
        call_ensures(Accept::<F>::try_new::<I>, (fd, domain, ty, protocol), r),
        call_ensures(Accept::<F>::new::<I>, (fd,), op),
    ensures
        r is Ok,
        r->Ok_0.fd == op.fd,
        r->Ok_0.addr_len == op.addr_len,
        op.fd == fd.target(),
        op.addr_len == 128,
        op.buffer.bytes@.len() == 128,
{
}

/// Connecting succeeds exactly if the call did, and fails with its error.
pub proof fn law_connected<F>(op: Connect<F>, result: IoResult<usize>, r: IoResult<()>)
    requires
        call_ensures(Connect::<F>::on_connect, (op, result), r),
    ensures
        r is Ok <==> result is Ok,
        r is Err ==> r->Err_0 == result->Err_0,
{
}

/// A message is received with room for any address, and sent with the address as long as it is, in as many buffers as
/// there are; nothing but the header changes.
pub proof fn law_message_headers<F, T: AsIoSlices>(received: RecvMsgImpl<F, T>, sent: SendMsgImpl<F, T>)
    requires
        received.buffer.slices() <= usize::MAX,
        sent.buffer.slices() <= usize::MAX,
    ensures
        forall|op: &mut RecvMsgImpl<F, T>|
            *op == received && #[trigger] call_ensures(RecvMsgImpl::<F, T>::set_msg, (op,), ()) ==> {
                let msg = final(op).msg;
                &&& msg.name_len == 128 && msg.control_len == 0 && msg.flags == 0
                &&& msg.iov_len == received.buffer.slices()
                &&& final(op).fd == received.fd && final(op).buffer == received.buffer
            },
        forall|op: &mut SendMsgImpl<F, T>|
            *op == sent && #[trigger] call_ensures(SendMsgImpl::<F, T>::set_msg, (op,), ()) ==> {
                let msg = final(op).msg;
                &&& msg.name_len == sent.addr.len && msg.control_len == 0 && msg.flags == 0
                &&& msg.iov_len == sent.buffer.slices()
                &&& final(op).fd == sent.fd && final(op).buffer == sent.buffer && final(op).addr == sent.addr
            },
{
}

/// What was received comes back with the address that was put next to it, as long as the header says.
pub proof fn law_received_message<F, T>(op: RecvMsgImpl<F, T>, inner: (T, SockAddr))
    requires
        call_ensures(<RecvMsgImpl<F, T> as IntoInner>::into_inner, (op,), inner),
    ensures
        inner.0 == op.buffer,
        inner.1.storage == op.addr,
        inner.1.len == op.msg.name_len,
{
}

} // verus!
