//! What the operations ask for, going by what they were made with.
use vstd::prelude::*;

use crate::addr::SockAddr;
use crate::buf::{AsIoSlices, IntoInner, IoBuf, IoBufMut};
use crate::driver::iour::op::{RecvFrom, SendTo};
use crate::driver::iour::{Fd, FdOrFixed, FixedFd, OpCode, SqOp};
use crate::driver::time::Timeout;
use crate::driver::unix::op::{
    Accept, Connect, Read, ReadAt, Recv, RecvMsgImpl, RecvVectoredImpl, Send, SendMsgImpl,
    SendVectoredImpl, Sync, Write, WriteAt,
};
use crate::driver::unix::{IntoFdOrFixed, IntoRawFd};
use crate::time::Duration;

verus! {

/// A request about an attached descriptor is about that descriptor, and one about a fixed descriptor about its place.
pub proof fn law_descriptors_stay_apart(fd: Fd, fixed: FixedFd, a: FdOrFixed, b: FdOrFixed)
    requires
        call_ensures(<Fd as IntoFdOrFixed>::into, (fd,), a),
        call_ensures(<FixedFd as IntoFdOrFixed>::into, (fixed,), b),
    ensures
        a == FdOrFixed::Fd(fd),
        b == FdOrFixed::Fixed(fixed),
        a != b,
{
}

/// A read asks for as many bytes as its buffer has room for, as far as 32 bits go.
pub proof fn law_read<I: IntoFdOrFixed<Target = FdOrFixed>, T: IoBufMut>(fd: I, buffer: T, made: Read<FdOrFixed, T>)
    requires
        call_ensures(Read::<FdOrFixed, T>::new::<I>, (fd, buffer), made),
    ensures
        forall|op: &mut Read<FdOrFixed, T>, request: SqOp|
            *op == made && #[trigger] call_ensures(<Read<FdOrFixed, T> as OpCode>::create_entry, (op,), request) ==> {
                &&& request matches SqOp::Read { fd: target, len, offset } && target == fd.target()
                    && len == buffer.room() % 0x1_0000_0000 && offset == 0
                &&& *final(op) == made
            },
        made.ready(),
{
}

/// A read at a position asks for the bytes there, and for as many as its buffer has room for.
pub proof fn law_read_at<I: IntoFdOrFixed<Target = FdOrFixed>, T: IoBufMut>(
    fd: I,
    offset: usize,
    buffer: T,
    made: ReadAt<FdOrFixed, T>,
)
    requires
        call_ensures(ReadAt::<FdOrFixed, T>::new::<I>, (fd, offset, buffer), made),
    ensures
        forall|op: &mut ReadAt<FdOrFixed, T>, request: SqOp|
            *op == made && #[trigger] call_ensures(<ReadAt<FdOrFixed, T> as OpCode>::create_entry, (op,), request) ==> {
                &&& request matches SqOp::Read { fd: target, len, offset: at } && target == fd.target()
                    && len == buffer.room() % 0x1_0000_0000 && at == offset
                &&& *final(op) == made
            },
        made.ready(),
{
}

/// A write hands over the bytes that its buffer holds.
pub proof fn law_write<I: IntoFdOrFixed<Target = FdOrFixed>, T: IoBuf>(fd: I, buffer: T, made: Write<FdOrFixed, T>)
    requires
        call_ensures(Write::<FdOrFixed, T>::new::<I>, (fd, buffer), made),
    ensures
        forall|op: &mut Write<FdOrFixed, T>, request: SqOp|
            *op == made && #[trigger] call_ensures(<Write<FdOrFixed, T> as OpCode>::create_entry, (op,), request) ==> {
                &&& request matches SqOp::Write { fd: target, len, offset } && target == fd.target()
                    && len == buffer.filled() % 0x1_0000_0000 && offset == 0
                &&& *final(op) == made
            },
        made.ready(),
{
}

/// A write at a position hands over the bytes that its buffer holds, to be put there.
pub proof fn law_write_at<I: IntoFdOrFixed<Target = FdOrFixed>, T: IoBuf>(
    fd: I,
    offset: usize,
    buffer: T,
    made: WriteAt<FdOrFixed, T>,
)
    requires
        call_ensures(WriteAt::<FdOrFixed, T>::new::<I>, (fd, offset, buffer), made),
    ensures
        forall|op: &mut WriteAt<FdOrFixed, T>, request: SqOp|
            *op == made
                && #[trigger] call_ensures(<WriteAt<FdOrFixed, T> as OpCode>::create_entry, (op,), request) ==> {
                &&& request matches SqOp::Write { fd: target, len, offset: at } && target == fd.target()
                    && len == buffer.filled() % 0x1_0000_0000 && at == offset
                &&& *final(op) == made
            },
        made.ready(),
{
}

/// The request of a sync is about its descriptor, and leaves out the metadata exactly if that was asked for.
pub proof fn law_sync<I: IntoFdOrFixed<Target = FdOrFixed>>(fd: I, datasync: bool, made: Sync<FdOrFixed>)
    requires
        call_ensures(Sync::<FdOrFixed>::new::<I>, (fd, datasync), made),
    ensures
        forall|op: &mut Sync<FdOrFixed>, request: SqOp|
            *op == made && #[trigger] call_ensures(<Sync<FdOrFixed> as OpCode>::create_entry, (op,), request) ==> {
                &&& request matches SqOp::Fsync { fd: target, datasync: data_only } && target == fd.target()
                    && data_only == datasync
                &&& *final(op) == made
            },
        made.ready(),
{
}

/// Accepting is about the descriptor that is listened on, and there is room for any address.
pub proof fn law_accept<I: IntoFdOrFixed<Target = FdOrFixed>>(fd: I, made: Accept<FdOrFixed>)
    requires
        call_ensures(Accept::<FdOrFixed>::new::<I>, (fd,), made),
    ensures
        forall|op: &mut Accept<FdOrFixed>, request: SqOp|
            *op == made && #[trigger] call_ensures(<Accept<FdOrFixed> as OpCode>::create_entry, (op,), request) ==> {
                &&& request matches SqOp::Accept { fd: target } && target == fd.target()
                &&& *final(op) == made
                &&& made.addr_len == 128
                &&& made.buffer.bytes@.len() == 128
            },
        made.ready(),
{
}

/// Connecting hands over the whole address.
pub proof fn law_connect<I: IntoFdOrFixed<Target = FdOrFixed>>(fd: I, addr: SockAddr, made: Connect<FdOrFixed>)
    requires
        call_ensures(Connect::<FdOrFixed>::new::<I>, (fd, addr), made),
    ensures
        forall|op: &mut Connect<FdOrFixed>, request: SqOp|
            *op == made && #[trigger] call_ensures(<Connect<FdOrFixed> as OpCode>::create_entry, (op,), request) ==> {
                &&& request matches SqOp::Connect { fd: target, addr_len } && target == fd.target()
                    && addr_len == addr.len
                &&& *final(op) == made
                &&& made.addr == addr
            },
        made.ready(),
{
}

/// Receiving asks for as many bytes as the buffer has room for.
pub proof fn law_recv<I: IntoFdOrFixed<Target = FdOrFixed>, T: IoBufMut>(fd: I, buffer: T, made: Recv<FdOrFixed, T>)
    requires
        call_ensures(Recv::<FdOrFixed, T>::new::<I>, (fd, buffer), made),
    ensures
        forall|op: &mut Recv<FdOrFixed, T>, request: SqOp|
            *op == made && #[trigger] call_ensures(<Recv<FdOrFixed, T> as OpCode>::create_entry, (op,), request) ==> {
                &&& request matches SqOp::Recv { fd: target, len } && target == fd.target()
                    && len == buffer.room() % 0x1_0000_0000
                &&& *final(op) == made
            },
        made.ready(),
{
}

/// Receiving into several buffers asks for all of them.
pub proof fn law_recv_vectored<I: IntoFdOrFixed<Target = FdOrFixed>, T: AsIoSlices>(
    fd: I,
    buffer: T,
    made: RecvVectoredImpl<FdOrFixed, T>,
)
    requires
        call_ensures(RecvVectoredImpl::<FdOrFixed, T>::new::<I>, (fd, buffer), made),
    ensures
        forall|op: &mut RecvVectoredImpl<FdOrFixed, T>, request: SqOp|
            *op == made
                && #[trigger] call_ensures(<RecvVectoredImpl<FdOrFixed, T> as OpCode>::create_entry, (op,),
                    request) ==> {
                &&& request matches SqOp::Readv { fd: target, count } && target == fd.target()
                    && count == buffer.slices() % 0x1_0000_0000
                &&& *final(op) == made
            },
        made.ready(),
{
}

/// Sending hands over the bytes that the buffer holds.
pub proof fn law_send<I: IntoFdOrFixed<Target = FdOrFixed>, T: IoBuf>(fd: I, buffer: T, made: Send<FdOrFixed, T>)
    requires
        call_ensures(Send::<FdOrFixed, T>::new::<I>, (fd, buffer), made),
    ensures
        forall|op: &mut Send<FdOrFixed, T>, request: SqOp|
            *op == made && #[trigger] call_ensures(<Send<FdOrFixed, T> as OpCode>::create_entry, (op,), request) ==> {
                &&& request matches SqOp::Send { fd: target, len } && target == fd.target()
                    && len == buffer.filled() % 0x1_0000_0000
                &&& *final(op) == made
            },
        made.ready(),
{
}

/// Sending from several buffers hands over all of them.
pub proof fn law_send_vectored<I: IntoFdOrFixed<Target = FdOrFixed>, T: AsIoSlices>(
    fd: I,
    buffer: T,
    made: SendVectoredImpl<FdOrFixed, T>,
)
    requires
        call_ensures(SendVectoredImpl::<FdOrFixed, T>::new::<I>, (fd, buffer), made),
    ensures
        forall|op: &mut SendVectoredImpl<FdOrFixed, T>, request: SqOp|
            *op == made
                && #[trigger] call_ensures(<SendVectoredImpl<FdOrFixed, T> as OpCode>::create_entry, (op,),
                    request) ==> {
                &&& request matches SqOp::Writev { fd: target, count } && target == fd.target()
                    && count == buffer.slices() % 0x1_0000_0000
                &&& *final(op) == made
            },
        made.ready(),
{
}

/// Receiving a message offers all the buffers, and room for any address.
pub proof fn law_recv_msg<I: IntoFdOrFixed<Target = FdOrFixed>, T: AsIoSlices>(
    fd: I,
    buffer: T,
    made: RecvMsgImpl<FdOrFixed, T>,
)
    requires
        call_ensures(RecvMsgImpl::<FdOrFixed, T>::new::<I>, (fd, buffer), made),
    ensures
        forall|op: &mut RecvMsgImpl<FdOrFixed, T>, request: SqOp|
            *op == made
                && #[trigger] call_ensures(<RecvMsgImpl<FdOrFixed, T> as OpCode>::create_entry, (op,), request) ==> {
                &&& request matches SqOp::RecvMsg { fd: target } && target == fd.target()
                &&& final(op).msg.name_len == 128
                &&& final(op).msg.iov_len == buffer.slices() as usize
                &&& final(op).msg.control_len == 0
                &&& final(op).fd == fd.target()
                &&& final(op).buffer == made.buffer
                &&& final(op).addr == made.addr
                &&& made.buffer == buffer
                &&& made.addr.bytes@.len() == 128
            },
        made.ready(),
{
}

/// Sending a message hands over all the buffers, and the whole address.
pub proof fn law_send_msg<I: IntoFdOrFixed<Target = FdOrFixed>, T: AsIoSlices>(
    fd: I,
    buffer: T,
    addr: SockAddr,
    made: SendMsgImpl<FdOrFixed, T>,
)
    requires
        call_ensures(SendMsgImpl::<FdOrFixed, T>::new::<I>, (fd, buffer, addr), made),
    ensures
        forall|op: &mut SendMsgImpl<FdOrFixed, T>, request: SqOp|
            *op == made
                && #[trigger] call_ensures(<SendMsgImpl<FdOrFixed, T> as OpCode>::create_entry, (op,), request) ==> {
                &&& request matches SqOp::SendMsg { fd: target } && target == fd.target()
                &&& final(op).msg.name_len == addr.len
                &&& final(op).msg.iov_len == buffer.slices() as usize
                &&& final(op).msg.control_len == 0
                &&& final(op).fd == fd.target()
                &&& final(op).buffer == made.buffer
                &&& final(op).addr == addr
                &&& made.buffer == buffer
            },
        made.ready(),
{
}

/// Receiving with an address offers the one buffer, and room for any address.
pub proof fn law_recv_from<I: IntoFdOrFixed<Target = FdOrFixed>, T>(fd: I, buffer: T, made: RecvFrom<T>)
    requires
        call_ensures(RecvFrom::<T>::new::<I>, (fd, buffer), made),
    ensures
        forall|op: &mut RecvFrom<T>, request: SqOp|
            *op == made && #[trigger] call_ensures(<RecvFrom<T> as OpCode>::create_entry, (op,), request) ==> {
                &&& request matches SqOp::RecvMsg { fd: target } && target == fd.target()
                &&& final(op).inner.msg.name_len == 128
                &&& final(op).inner.msg.iov_len == 1
                &&& final(op).inner.msg.control_len == 0
                &&& final(op).inner.fd == fd.target()
                &&& final(op).inner.buffer == made.inner.buffer
                &&& final(op).inner.addr == made.inner.addr
                &&& made.inner.buffer.buffer == buffer
                &&& made.inner.addr.bytes@.len() == 128
            },
        made.ready(),
{
}

/// Sending to an address hands over the one buffer, and the whole address.
pub proof fn law_send_to<I: IntoFdOrFixed<Target = FdOrFixed>, T>(fd: I, buffer: T, addr: SockAddr, made: SendTo<T>)
    requires
        call_ensures(SendTo::<T>::new::<I>, (fd, buffer, addr), made),
    ensures
        forall|op: &mut SendTo<T>, request: SqOp|
            *op == made && #[trigger] call_ensures(<SendTo<T> as OpCode>::create_entry, (op,), request) ==> {
                &&& request matches SqOp::SendMsg { fd: target } && target == fd.target()
                &&& final(op).inner.msg.name_len == addr.len
                &&& final(op).inner.msg.iov_len == 1
                &&& final(op).inner.msg.control_len == 0
                &&& final(op).inner.fd == fd.target()
                &&& final(op).inner.buffer == made.inner.buffer
                &&& final(op).inner.addr == addr
                &&& made.inner.buffer.buffer == buffer
            },
        made.ready(),
{
}

/// A timer is asked for with the seconds and nanoseconds that make up its delay.
pub proof fn law_timeout(delay: Duration, made: Timeout)
    requires
        call_ensures(Timeout::new, (delay,), made),
        delay@ < 0x1_0000_0000_0000_0000 * 1_000_000_000,
    ensures
        forall|op: &mut Timeout, request: SqOp|
            *op == made && #[trigger] call_ensures(<Timeout as OpCode>::create_entry, (op,), request) ==> {
                &&& request matches SqOp::Timeout { sec, nsec } && sec * 1_000_000_000 + nsec == delay@ && nsec
                    < 1_000_000_000
                &&& *final(op) == made
            },
        made.ready(),
{
}

/// Closing an attached descriptor closes that descriptor.
pub proof fn law_close_attached(made: Fd)
    ensures
        forall|op: &mut Fd, request: SqOp|
            *op == made && #[trigger] call_ensures(<Fd as OpCode>::create_entry, (op,), request) ==> request
                == (SqOp::Close { raw_fd: made.raw_fd }) && *final(op) == made,
        made.ready(),
{
}

/// Closing a file or socket closes its descriptor and takes the value away; where there is none, there is nothing to
/// ask for.
pub proof fn law_close_once<T: IntoRawFd>(value: T)
    ensures
        Some(value).ready(),
        !None::<T>.ready(),
        forall|op: &mut Option<T>, request: SqOp|
            *op == Some(value) && #[trigger] call_ensures(<Option<T> as OpCode>::create_entry, (op,), request)
                ==> request == (SqOp::Close { raw_fd: value.raw_fd() }) && *final(op) is None,
{
}

/// What was received comes back with the address that was put next to it, as long as the header says.
pub proof fn law_received_from<T>(op: RecvFrom<T>, inner: (T, SockAddr))
    requires
        call_ensures(<RecvFrom<T> as IntoInner>::into_inner, (op,), inner),
    ensures
        inner.0 == op.inner.buffer.buffer,
        inner.1.storage == op.inner.addr,
        inner.1.len == op.inner.msg.name_len,
{
}

} // verus!
