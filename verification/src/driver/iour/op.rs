//! The requests of the operations.
use vstd::prelude::*;

use crate::addr::{zeroed, SockAddr};
use crate::buf::{AsIoSlices, BufWrapper, BufWrapperMut, IntoInner, IoBuf, IoBufMut};
use crate::driver::iour::{Fd, FdOrFixed, OpCode, SqOp};
use crate::driver::time::Timeout;
use crate::driver::unix::op::{
    unset_msg, Accept, Connect, Read, ReadAt, Recv, RecvMsgImpl, RecvVectoredImpl, Send, SendMsgImpl,
    SendVectoredImpl, Sync, Write, WriteAt,
};
use crate::driver::unix::{IntoFdOrFixed, IntoRawFd};
use crate::time::NANOS_PER_SEC;

verus! {

/// A length as a request holds it: what is left of it in 32 bits.
pub open spec fn request_len(len: nat) -> u32 {
    (len % 0x1_0000_0000) as u32
}

fn to_request_len(len: usize) -> (request: u32)
    ensures
        request == request_len(len as nat),
{
    (len as u64 % 0x1_0000_0000) as u32
}

impl<T: IoBufMut> OpCode for Read<FdOrFixed, T> {
    open spec fn ready(&self) -> bool {
        true
    }

    open spec fn request(&self) -> SqOp {
        SqOp::Read { fd: self.fd, len: request_len(self.buffer.room()), offset: 0 }
    }

    fn create_entry(&mut self) -> (op: SqOp)
        ensures
            *final(self) == *old(self),
    {
        SqOp::Read { fd: self.fd, len: to_request_len(self.buffer.buf_capacity()), offset: 0 }
    }
}

impl<T: IoBufMut> OpCode for ReadAt<FdOrFixed, T> {
    open spec fn ready(&self) -> bool {
        true
    }

    open spec fn request(&self) -> SqOp {
        SqOp::Read {
            fd: self.fd,
            len: request_len(self.buffer.room()),
            offset: self.offset as u64,
        }
    }

    fn create_entry(&mut self) -> (op: SqOp)
        ensures
            *final(self) == *old(self),
    {
        SqOp::Read {
            fd: self.fd,
            len: to_request_len(self.buffer.buf_capacity()),
            offset: self.offset as u64,
        }
    }
}

impl<T: IoBuf> OpCode for Write<FdOrFixed, T> {
    open spec fn ready(&self) -> bool {
        true
    }

    open spec fn request(&self) -> SqOp {
        SqOp::Write { fd: self.fd, len: request_len(self.buffer.filled()), offset: 0 }
    }

    fn create_entry(&mut self) -> (op: SqOp)
        ensures
            *final(self) == *old(self),
    {
        SqOp::Write { fd: self.fd, len: to_request_len(self.buffer.buf_len()), offset: 0 }
    }
}

impl<T: IoBuf> OpCode for WriteAt<FdOrFixed, T> {
    open spec fn ready(&self) -> bool {
        true
    }

    open spec fn request(&self) -> SqOp {
        SqOp::Write {
            fd: self.fd,
            len: request_len(self.buffer.filled()),
            offset: self.offset as u64,
        }
    }

    fn create_entry(&mut self) -> (op: SqOp)
        ensures
            *final(self) == *old(self),
    {
        SqOp::Write {
            fd: self.fd,
            len: to_request_len(self.buffer.buf_len()),
            offset: self.offset as u64,
        }
    }
}

impl OpCode for Sync<FdOrFixed> {
    open spec fn ready(&self) -> bool {
        true
    }

    open spec fn request(&self) -> SqOp {
        SqOp::Fsync { fd: self.fd, datasync: self.datasync }
    }

    fn create_entry(&mut self) -> (op: SqOp)
        ensures
            *final(self) == *old(self),
    {
        SqOp::Fsync { fd: self.fd, datasync: self.datasync }
    }
}

impl OpCode for Accept<FdOrFixed> {
    open spec fn ready(&self) -> bool {
        true
    }

    open spec fn request(&self) -> SqOp {
        SqOp::Accept { fd: self.fd }
    }

    fn create_entry(&mut self) -> (op: SqOp)
        ensures
            *final(self) == *old(self),
    {
        SqOp::Accept { fd: self.fd }
    }
}

impl OpCode for Connect<FdOrFixed> {
    open spec fn ready(&self) -> bool {
        true
    }

    open spec fn request(&self) -> SqOp {
        SqOp::Connect { fd: self.fd, addr_len: self.addr.len }
    }

    fn create_entry(&mut self) -> (op: SqOp)
        ensures
            *final(self) == *old(self),
    {
        SqOp::Connect { fd: self.fd, addr_len: self.addr.len() }
    }
}

impl<T: IoBufMut> OpCode for Recv<FdOrFixed, T> {
    open spec fn ready(&self) -> bool {
        true
    }

    open spec fn request(&self) -> SqOp {
        SqOp::Recv { fd: self.fd, len: request_len(self.buffer.room()) }
    }

    fn create_entry(&mut self) -> (op: SqOp)
        ensures
            *final(self) == *old(self),
    {
        SqOp::Recv { fd: self.fd, len: to_request_len(self.buffer.buf_capacity()) }
    }
}

impl<T: AsIoSlices> OpCode for RecvVectoredImpl<FdOrFixed, T> {
    open spec fn ready(&self) -> bool {
        true
    }

    open spec fn request(&self) -> SqOp {
        SqOp::Readv { fd: self.fd, count: request_len(self.buffer.slices()) }
    }

    fn create_entry(&mut self) -> (op: SqOp)
        ensures
            *final(self) == *old(self),
    {
        SqOp::Readv { fd: self.fd, count: to_request_len(self.buffer.io_slices()) }
    }
}

impl<T: IoBuf> OpCode for Send<FdOrFixed, T> {
    open spec fn ready(&self) -> bool {
        true
    }

    open spec fn request(&self) -> SqOp {
        SqOp::Send { fd: self.fd, len: request_len(self.buffer.filled()) }
    }

    fn create_entry(&mut self) -> (op: SqOp)
        ensures
            *final(self) == *old(self),
    {
        SqOp::Send { fd: self.fd, len: to_request_len(self.buffer.buf_len()) }
    }
}

impl<T: AsIoSlices> OpCode for SendVectoredImpl<FdOrFixed, T> {
    open spec fn ready(&self) -> bool {
        true
    }

    open spec fn request(&self) -> SqOp {
        SqOp::Writev { fd: self.fd, count: request_len(self.buffer.slices()) }
    }

    fn create_entry(&mut self) -> (op: SqOp)
        ensures
            *final(self) == *old(self),
    {
        SqOp::Writev { fd: self.fd, count: to_request_len(self.buffer.io_slices()) }
    }
}

impl<T: AsIoSlices> OpCode for RecvMsgImpl<FdOrFixed, T> {
    open spec fn ready(&self) -> bool {
        true
    }

    open spec fn request(&self) -> SqOp {
        SqOp::RecvMsg { fd: self.fd }
    }

    fn create_entry(&mut self) -> (op: SqOp)
        ensures
            final(self).msg == old(self).full_msg(),
            final(self).fd == old(self).fd,
            final(self).buffer == old(self).buffer,
            final(self).addr == old(self).addr,
    {
        self.set_msg();
        SqOp::RecvMsg { fd: self.fd }
    }
}

impl<T: AsIoSlices> OpCode for SendMsgImpl<FdOrFixed, T> {
    open spec fn ready(&self) -> bool {
        true
    }

    open spec fn request(&self) -> SqOp {
        SqOp::SendMsg { fd: self.fd }
    }

    fn create_entry(&mut self) -> (op: SqOp)
        ensures
            final(self).msg == old(self).full_msg(),
            final(self).fd == old(self).fd,
            final(self).buffer == old(self).buffer,
            final(self).addr == old(self).addr,
    {
        self.set_msg();
        SqOp::SendMsg { fd: self.fd }
    }
}

/// Receive a single piece of data and source address using a single buffer.
#[derive(Debug)]
pub struct RecvFrom<T> {
    /// The message to receive.
    pub inner: RecvMsgImpl<FdOrFixed, BufWrapperMut<T>>,
}

impl<T> RecvFrom<T> {
    /// Creates [`RecvFrom`].
    pub fn new<I: IntoFdOrFixed<Target = FdOrFixed>>(fd: I, buffer: T) -> (op: Self)
        ensures
            op.inner.fd == fd.target(),
            op.inner.buffer.buffer == buffer,
            op.inner.addr.bytes@ == zeroed(),
            op.inner.msg == unset_msg(),
    {
        RecvFrom { inner: RecvMsgImpl::new(fd, BufWrapperMut::new(buffer)) }
    }
}

impl<T> IntoInner for RecvFrom<T> {
    type Inner = (T, SockAddr);

    open spec fn inner(self) -> (T, SockAddr) {
        (
            self.inner.buffer.buffer,
            SockAddr { storage: self.inner.addr, len: self.inner.msg.name_len },
        )
    }

    fn into_inner(self) -> (inner: (T, SockAddr)) {
        let (bufwrapper, sockaddr) = self.inner.into_inner();
        (bufwrapper.into_inner(), sockaddr)
    }
}

impl<T> OpCode for RecvFrom<T> {
    open spec fn ready(&self) -> bool {
        true
    }

    open spec fn request(&self) -> SqOp {
        SqOp::RecvMsg { fd: self.inner.fd }
    }

    fn create_entry(&mut self) -> (op: SqOp)
        ensures
            final(self).inner.msg == old(self).inner.full_msg(),
            final(self).inner.fd == old(self).inner.fd,
            final(self).inner.buffer == old(self).inner.buffer,
            final(self).inner.addr == old(self).inner.addr,
    {
        self.inner.create_entry()
    }
}

/// Send a single piece of data from a single buffer to the specified address.
#[derive(Debug)]
pub struct SendTo<T> {
    /// The message to send.
    pub inner: SendMsgImpl<FdOrFixed, BufWrapper<T>>,
}

impl<T> SendTo<T> {
    /// Creates [`SendTo`].
    pub fn new<I: IntoFdOrFixed<Target = FdOrFixed>>(fd: I, buffer: T, addr: SockAddr) -> (op: Self)
        ensures
            op.inner.fd == fd.target(),
            op.inner.buffer.buffer == buffer,
            op.inner.addr == addr,
            op.inner.msg == unset_msg(),
    {
        SendTo { inner: SendMsgImpl::new(fd, BufWrapper::new(buffer), addr) }
    }
}

impl<T> IntoInner for SendTo<T> {
    type Inner = T;

    open spec fn inner(self) -> T {
        self.inner.buffer.buffer
    }

    fn into_inner(self) -> (inner: T) {
        self.inner.into_inner().into_inner()
    }
}

impl<T> OpCode for SendTo<T> {
    open spec fn ready(&self) -> bool {
        true
    }

    open spec fn request(&self) -> SqOp {
        SqOp::SendMsg { fd: self.inner.fd }
    }

    fn create_entry(&mut self) -> (op: SqOp)
        ensures
            final(self).inner.msg == old(self).inner.full_msg(),
            final(self).inner.fd == old(self).inner.fd,
            final(self).inner.buffer == old(self).inner.buffer,
            final(self).inner.addr == old(self).inner.addr,
    {
        self.inner.create_entry()
    }
}

impl OpCode for Timeout {
    open spec fn ready(&self) -> bool {
        true
    }

    open spec fn request(&self) -> SqOp {
        SqOp::Timeout {
            sec: (self.delay@ / (NANOS_PER_SEC as nat)) as u64,
            nsec: (self.delay@ % (NANOS_PER_SEC as nat)) as u32,
        }
    }

    fn create_entry(&mut self) -> (op: SqOp)
        ensures
            *final(self) == *old(self),
    {
        SqOp::Timeout { sec: self.delay.as_secs(), nsec: self.delay.subsec_nanos() }
    }
}

/// Close attached file descriptor.
impl OpCode for Fd {
    open spec fn ready(&self) -> bool {
        true
    }

    open spec fn request(&self) -> SqOp {
        SqOp::Close { raw_fd: self.raw_fd }
    }

    fn create_entry(&mut self) -> (op: SqOp)
        ensures
            *final(self) == *old(self),
    {
        SqOp::Close { raw_fd: self.as_raw_fd() }
    }
}

/// Close some file or socket and set it to None. There has to be a value.
impl<T: IntoRawFd> OpCode for Option<T> {
    open spec fn ready(&self) -> bool {
        *self is Some
    }

    open spec fn request(&self) -> SqOp {
        SqOp::Close { raw_fd: (*self)->0.raw_fd() }
    }

    fn create_entry(&mut self) -> (op: SqOp)
        ensures
            *final(self) is None,
    {
        let value = self.take();
        SqOp::Close { raw_fd: value.unwrap().into_raw_fd() }
    }
}

} // verus!
