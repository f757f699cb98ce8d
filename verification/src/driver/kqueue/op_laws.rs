//! What the operations ask for, going by what they were made with.
use vstd::prelude::*;

use crate::addr::SockAddr;
use crate::buf::{AsIoSlices, IntoInner, IoBuf, IoBufMut};
use crate::driver::attempts::{Operated, TIMER_PENDING};
use crate::driver::kqueue::op::{
    can_block, finish, may_block, Attempt, Call, CallOutcome, Next, RecvFrom, SendTo,
};
use crate::driver::kqueue::{Event, EventFilter, Fd, FdOrFixed, OpCode};
use crate::driver::time::Timeout;
use crate::driver::unix::op::{
    Accept, Connect, Read, ReadAt, Recv, RecvMsgImpl, RecvVectoredImpl, Send, SendMsgImpl,
    SendVectoredImpl, Sync, Write, WriteAt,
};
use crate::driver::unix::{IntoFdOrFixed, IntoRawFd};
use crate::error::{IoError, IoResult};
use crate::time::Duration;

verus! {

/// A call that returned `n` completes its operation with that same `n`: what was transferred, or the descriptor that
/// was accepted. The one exception is the query of the pending error of a socket, which has succeeded only if there is
/// no such error. A call that failed fails its operation with its error code, and what would block is not over.
pub proof fn law_outcome_is_the_result(call: Call, outcome: CallOutcome, operated: Operated)
    requires
        call_ensures(finish, (call, outcome), operated),
    ensures
        outcome matches CallOutcome::Returned(n) ==> {
            &&& !(call is SocketError) ==> operated == Some(Ok::<usize, IoError>(n))
            &&& call is SocketError && n == 0 ==> operated == Some(Ok::<usize, IoError>(0))
            &&& call is SocketError && n != 0 ==> operated == Some(Err::<usize, IoError>(IoError::Os(n as i32)))
        },
        outcome matches CallOutcome::Failed(code) ==> operated == Some(Err::<usize, IoError>(IoError::Os(code))),
        outcome is WouldBlock <==> operated is None,
{
}

/// Of two calls that are not about the pending error of a socket, the same outcome means the same.
pub proof fn law_outcome_alone_decides(
    a: Call,
    b: Call,
    outcome: CallOutcome,
    operated_a: Operated,
    operated_b: Operated,
)
    requires
        !(a is SocketError),
        !(b is SocketError),
        call_ensures(finish, (a, outcome), operated_a),
        call_ensures(finish, (b, outcome), operated_b),
    ensures
        operated_a == operated_b,
{
}

/// An accepted connection is handed out as the descriptor that accepting it returned, with the address that the system
/// has put into the operation.
pub proof fn law_accepted_descriptor_is_handed_out<I: IntoFdOrFixed<Target = FdOrFixed>>(
    fd: I,
    accept: Accept<FdOrFixed>,
    socket: usize,
    operated: Operated,
)
    requires
        call_ensures(
            finish,
            (Call::Accept { fd: fd.target().raw_fd, addr_len: accept.addr_len }, CallOutcome::Returned(socket)),
            operated,
        ),
        socket <= i32::MAX,
    ensures
        operated is Some,
        forall|r: IoResult<(i32, SockAddr)>| #[trigger]
            call_ensures(
                Accept::<FdOrFixed>::on_accept,
                (accept, operated->0, Ok::<(), IoError>(())),
                r,
            ) ==> r is Ok && r->Ok_0.0 == socket && r->Ok_0.1.storage == accept.buffer && r->Ok_0.1.len
                == accept.addr_len,
{
}

/// The direction that an operation waits for is that of the call that it makes: it waits for the descriptor of the
/// call to be writable when the call takes bytes out of a buffer or connects, and to be readable when the call fills a
/// buffer or accepts.
pub proof fn law_waits_in_the_direction_of_its_call<A: Attempt>(op: A, call: Call)
    requires
        op.next() == Next::Call(call),
        may_block(call),
    ensures
        call is Write || call is Pwrite || call is Writev || call is Send || call is SendTo || call is SendMsg
            || call is Connect ==> op.waits_for() == Some(EventFilter::Write(call.raw_fd())),
        call is Read || call is Pread || call is Readv || call is Recv || call is RecvFrom || call is RecvMsg
            || call is Accept ==> op.waits_for() == Some(EventFilter::Read(call.raw_fd())),
        forall|filter: Option<EventFilter>| #[trigger]
            call_ensures(A::filter, (&op,), filter) ==> filter == op.waits_for(),
        forall|user_data: usize, event: Event| #[trigger]
            call_ensures(A::as_event, (&op, user_data), event) ==> event.filter == op.waits_for()->0
                && event.udata == user_data,
{
    op.waits_for_its_call();
}

/// Only calls on descriptors that can exist block, and of those neither syncing nor closing nor the query of a pending
/// error.
pub proof fn law_which_calls_block(call: Call, can: bool)
    requires
        call_ensures(can_block, (call,), can),
    ensures
        call is Fsync || call is Close || call is SocketError ==> !can,
        call.raw_fd() < 0 ==> !can,
        !(call is Fsync || call is Close || call is SocketError) && call.raw_fd() >= 0 ==> can,
{
}

/// An event is asked for once: the kernel adds it, reports it, and forgets it. It is about the given filter, and comes
/// back with the given number.
pub proof fn law_event_is_asked_for_once(filter: EventFilter, udata: usize, event: Event)
    requires
        call_ensures(Event::new, (filter, udata), event),
    ensures
        event.filter == filter,
        event.udata == udata,
        event.flags.add,
        event.flags.enable,
        event.flags.oneshot,
        !event.flags.error,
{
}

/// A read asks for as many bytes as its buffer has room for, from its own descriptor.
pub proof fn law_read<I: IntoFdOrFixed<Target = FdOrFixed>, T: IoBufMut>(fd: I, buffer: T, made: Read<FdOrFixed, T>)
    requires
        call_ensures(Read::<FdOrFixed, T>::new::<I>, (fd, buffer), made),
    ensures
        forall|op: &mut Read<FdOrFixed, T>, next: Next|
            *op == made
                && #[trigger] call_ensures(<Read<FdOrFixed, T> as Attempt>::prepare, (op,), next)
                    ==> next == Next::Call(
                Call::Read { fd: fd.target().raw_fd, len: buffer.room() as usize },
            ) && *final(op) == made,
        forall|filter: Option<EventFilter>| #[trigger]
            call_ensures(<Read<FdOrFixed, T> as Attempt>::filter, (&made,), filter)
                ==> filter == Some(EventFilter::Read(fd.target().raw_fd)),
{
}

/// A read at a position asks for the bytes there, and for as many as its buffer has room for.
pub proof fn law_read_at<I: IntoFdOrFixed<Target = FdOrFixed>, T: IoBufMut>(
    fd: I,
    offset: usize,
    buffer: T,
    made: ReadAt<FdOrFixed, T>,
)
    requires
        call_ensures(ReadAt::<FdOrFixed, T>::new::<I>, (fd, offset, buffer), made),
    ensures
        forall|op: &mut ReadAt<FdOrFixed, T>, next: Next|
            *op == made
                && #[trigger] call_ensures(<ReadAt<FdOrFixed, T> as Attempt>::prepare, (op,), next)
                    ==> next == Next::Call(
                Call::Pread { fd: fd.target().raw_fd, len: buffer.room() as usize, offset },
            ) && *final(op) == made,
        forall|filter: Option<EventFilter>| #[trigger]
            call_ensures(<ReadAt<FdOrFixed, T> as Attempt>::filter, (&made,), filter)
                ==> filter == Some(EventFilter::Read(fd.target().raw_fd)),
{
}

/// A write hands over the bytes that its buffer holds.
pub proof fn law_write<I: IntoFdOrFixed<Target = FdOrFixed>, T: IoBuf>(fd: I, buffer: T, made: Write<FdOrFixed, T>)
    requires
        call_ensures(Write::<FdOrFixed, T>::new::<I>, (fd, buffer), made),
    ensures
        forall|op: &mut Write<FdOrFixed, T>, next: Next|
            *op == made
                && #[trigger] call_ensures(<Write<FdOrFixed, T> as Attempt>::prepare, (op,), next)
                    ==> next == Next::Call(
                Call::Write { fd: fd.target().raw_fd, len: buffer.filled() as usize },
            ) && *final(op) == made,
        forall|filter: Option<EventFilter>| #[trigger]
            call_ensures(<Write<FdOrFixed, T> as Attempt>::filter, (&made,), filter)
                ==> filter == Some(EventFilter::Write(fd.target().raw_fd)),
{
}

/// A write at a position hands over the bytes that its buffer holds, to be put there.
pub proof fn law_write_at<I: IntoFdOrFixed<Target = FdOrFixed>, T: IoBuf>(
    fd: I,
    offset: usize,
    buffer: T,
    made: WriteAt<FdOrFixed, T>,
)
    requires
        call_ensures(WriteAt::<FdOrFixed, T>::new::<I>, (fd, offset, buffer), made),
    ensures
        forall|op: &mut WriteAt<FdOrFixed, T>, next: Next|
            *op == made
                && #[trigger] call_ensures(<WriteAt<FdOrFixed, T> as Attempt>::prepare, (op,), next)
                    ==> next == Next::Call(
                Call::Pwrite { fd: fd.target().raw_fd, len: buffer.filled() as usize, offset },
            ) && *final(op) == made,
        forall|filter: Option<EventFilter>| #[trigger]
            call_ensures(<WriteAt<FdOrFixed, T> as Attempt>::filter, (&made,), filter)
                ==> filter == Some(EventFilter::Write(fd.target().raw_fd)),
{
}

/// A sync leaves out the metadata exactly if that was asked for.
pub proof fn law_sync<I: IntoFdOrFixed<Target = FdOrFixed>>(fd: I, datasync: bool, made: Sync<FdOrFixed>)
    requires
        call_ensures(Sync::<FdOrFixed>::new::<I>, (fd, datasync), made),
    ensures
        forall|op: &mut Sync<FdOrFixed>, next: Next|
            *op == made
                && #[trigger] call_ensures(<Sync<FdOrFixed> as Attempt>::prepare, (op,), next) ==> next == Next::Call(
                Call::Fsync { fd: fd.target().raw_fd, datasync },
            ) && *final(op) == made,
        forall|filter: Option<EventFilter>| #[trigger]
            call_ensures(<Sync<FdOrFixed> as Attempt>::filter, (&made,), filter) ==> filter == None::<EventFilter>,
{
}

/// Accepting offers room for any address.
pub proof fn law_accept<I: IntoFdOrFixed<Target = FdOrFixed>>(fd: I, made: Accept<FdOrFixed>)
    requires
        call_ensures(Accept::<FdOrFixed>::new::<I>, (fd,), made),
    ensures
        forall|op: &mut Accept<FdOrFixed>, next: Next|
            *op == made
                && #[trigger] call_ensures(<Accept<FdOrFixed> as Attempt>::prepare, (op,), next) ==> next == Next::Call(
                Call::Accept { fd: fd.target().raw_fd, addr_len: 128 },
            ) && *final(op) == made,
        forall|filter: Option<EventFilter>| #[trigger]
            call_ensures(<Accept<FdOrFixed> as Attempt>::filter, (&made,), filter)
                ==> filter == Some(EventFilter::Read(fd.target().raw_fd)),
{
}

/// Receiving asks for as many bytes as the buffer has room for.
pub proof fn law_recv<I: IntoFdOrFixed<Target = FdOrFixed>, T: IoBufMut>(fd: I, buffer: T, made: Recv<FdOrFixed, T>)
    requires
        call_ensures(Recv::<FdOrFixed, T>::new::<I>, (fd, buffer), made),
    ensures
        forall|op: &mut Recv<FdOrFixed, T>, next: Next|
            *op == made
                && #[trigger] call_ensures(<Recv<FdOrFixed, T> as Attempt>::prepare, (op,), next)
                    ==> next == Next::Call(
                Call::Recv { fd: fd.target().raw_fd, len: buffer.room() as usize },
            ) && *final(op) == made,
        forall|filter: Option<EventFilter>| #[trigger]
            call_ensures(<Recv<FdOrFixed, T> as Attempt>::filter, (&made,), filter)
                ==> filter == Some(EventFilter::Read(fd.target().raw_fd)),
{
}

/// Receiving into several buffers asks for all of them.
pub proof fn law_recv_vectored<I: IntoFdOrFixed<Target = FdOrFixed>, T: AsIoSlices>(
    fd: I,
    buffer: T,
    made: RecvVectoredImpl<FdOrFixed, T>,
)
    requires
        call_ensures(RecvVectoredImpl::<FdOrFixed, T>::new::<I>, (fd, buffer), made),
    ensures
        forall|op: &mut RecvVectoredImpl<FdOrFixed, T>, next: Next|
            *op == made
                && #[trigger] call_ensures(<RecvVectoredImpl<FdOrFixed, T> as Attempt>::prepare, (op,), next)
                    ==> next == Next::Call(
                Call::Readv { fd: fd.target().raw_fd, count: buffer.slices() as usize },
            ) && *final(op) == made,
        forall|filter: Option<EventFilter>| #[trigger]
            call_ensures(<RecvVectoredImpl<FdOrFixed, T> as Attempt>::filter, (&made,), filter)
                ==> filter == Some(EventFilter::Read(fd.target().raw_fd)),
{
}

/// Sending hands over the bytes that the buffer holds.
pub proof fn law_send<I: IntoFdOrFixed<Target = FdOrFixed>, T: IoBuf>(fd: I, buffer: T, made: Send<FdOrFixed, T>)
    requires
        call_ensures(Send::<FdOrFixed, T>::new::<I>, (fd, buffer), made),
    ensures
        forall|op: &mut Send<FdOrFixed, T>, next: Next|
            *op == made
                && #[trigger] call_ensures(<Send<FdOrFixed, T> as Attempt>::prepare, (op,), next)
                    ==> next == Next::Call(
                Call::Send { fd: fd.target().raw_fd, len: buffer.filled() as usize },
            ) && *final(op) == made,
        forall|filter: Option<EventFilter>| #[trigger]
            call_ensures(<Send<FdOrFixed, T> as Attempt>::filter, (&made,), filter)
                ==> filter == Some(EventFilter::Write(fd.target().raw_fd)),
{
}

/// Sending from several buffers hands over all of them.
pub proof fn law_send_vectored<I: IntoFdOrFixed<Target = FdOrFixed>, T: AsIoSlices>(
    fd: I,
    buffer: T,
    made: SendVectoredImpl<FdOrFixed, T>,
)
    requires
        call_ensures(SendVectoredImpl::<FdOrFixed, T>::new::<I>, (fd, buffer), made),
    ensures
        forall|op: &mut SendVectoredImpl<FdOrFixed, T>, next: Next|
            *op == made
                && #[trigger] call_ensures(<SendVectoredImpl<FdOrFixed, T> as Attempt>::prepare, (op,), next)
                    ==> next == Next::Call(
                Call::Writev { fd: fd.target().raw_fd, count: buffer.slices() as usize },
            ) && *final(op) == made,
        forall|filter: Option<EventFilter>| #[trigger]
            call_ensures(<SendVectoredImpl<FdOrFixed, T> as Attempt>::filter, (&made,), filter)
                ==> filter == Some(EventFilter::Write(fd.target().raw_fd)),
{
}

/// Receiving with an address asks for as many bytes as the buffer has room for, and offers room for any address.
pub proof fn law_recv_from<I: IntoFdOrFixed<Target = FdOrFixed>, T: IoBufMut>(fd: I, buffer: T, made: RecvFrom<T>)
    requires
        call_ensures(RecvFrom::<T>::new::<I>, (fd, buffer), made),
    ensures
        forall|op: &mut RecvFrom<T>, next: Next|
            *op == made
                && #[trigger] call_ensures(<RecvFrom<T> as Attempt>::prepare, (op,), next) ==> next == Next::Call(
                Call::RecvFrom { fd: fd.target().raw_fd, len: buffer.room() as usize, addr_len: 128 },
            ) && *final(op) == made,
        forall|filter: Option<EventFilter>| #[trigger]
            call_ensures(<RecvFrom<T> as Attempt>::filter, (&made,), filter)
                ==> filter == Some(EventFilter::Read(fd.target().raw_fd)),
{
}

/// Sending to an address hands over the bytes that the buffer holds, and the whole address.
pub proof fn law_send_to<I: IntoFdOrFixed<Target = FdOrFixed>, T: IoBuf>(
    fd: I,
    buffer: T,
    addr: SockAddr,
    made: SendTo<T>,
)
    requires
        call_ensures(SendTo::<T>::new::<I>, (fd, buffer, addr), made),
    ensures
        forall|op: &mut SendTo<T>, next: Next|
            *op == made && #[trigger] call_ensures(<SendTo<T> as Attempt>::prepare, (op,), next) ==> next == Next::Call(
                Call::SendTo { fd: fd.target().raw_fd, len: buffer.filled() as usize, addr_len: addr.len },
            ) && *final(op) == made,
        forall|filter: Option<EventFilter>| #[trigger]
            call_ensures(<SendTo<T> as Attempt>::filter, (&made,), filter)
                ==> filter == Some(EventFilter::Write(fd.target().raw_fd)),
{
}

/// Receiving a message offers all the buffers, and room for any address.
pub proof fn law_recv_msg<I: IntoFdOrFixed<Target = FdOrFixed>, T: AsIoSlices>(
    fd: I,
    buffer: T,
    made: RecvMsgImpl<FdOrFixed, T>,
)
    requires
        call_ensures(RecvMsgImpl::<FdOrFixed, T>::new::<I>, (fd, buffer), made),
    ensures
        forall|op: &mut RecvMsgImpl<FdOrFixed, T>, next: Next|
            *op == made
                && #[trigger] call_ensures(<RecvMsgImpl<FdOrFixed, T> as Attempt>::prepare, (op,), next)
                    ==> next == Next::Call(
                Call::RecvMsg { fd: fd.target().raw_fd },
            ) && final(op).msg.name_len == 128 && final(op).msg.iov_len == buffer.slices() as usize
                && final(op).msg.control_len
                == 0 && final(op).fd == made.fd && final(op).buffer == buffer && final(op).addr == made.addr,
        forall|filter: Option<EventFilter>| #[trigger]
            call_ensures(<RecvMsgImpl<FdOrFixed, T> as Attempt>::filter, (&made,), filter)
                ==> filter == Some(EventFilter::Read(fd.target().raw_fd)),
{
}

/// Sending a message hands over all the buffers, and the whole address.
pub proof fn law_send_msg<I: IntoFdOrFixed<Target = FdOrFixed>, T: AsIoSlices>(
    fd: I,
    buffer: T,
    addr: SockAddr,
    made: SendMsgImpl<FdOrFixed, T>,
)
    requires
        call_ensures(SendMsgImpl::<FdOrFixed, T>::new::<I>, (fd, buffer, addr), made),
    ensures
        forall|op: &mut SendMsgImpl<FdOrFixed, T>, next: Next|
            *op == made
                && #[trigger] call_ensures(<SendMsgImpl<FdOrFixed, T> as Attempt>::prepare, (op,), next)
                    ==> next == Next::Call(
                Call::SendMsg { fd: fd.target().raw_fd },
            ) && final(op).msg.name_len == addr.len && final(op).msg.iov_len == buffer.slices() as usize
                && final(op).msg.control_len
                == 0 && final(op).fd == made.fd && final(op).buffer == buffer && final(op).addr == addr,
        forall|filter: Option<EventFilter>| #[trigger]
            call_ensures(<SendMsgImpl<FdOrFixed, T> as Attempt>::filter, (&made,), filter)
                ==> filter == Some(EventFilter::Write(fd.target().raw_fd)),
{
}

/// Connecting hands over the whole address.
pub proof fn law_connect<I: IntoFdOrFixed<Target = FdOrFixed>>(fd: I, addr: SockAddr, made: Connect<FdOrFixed>)
    requires
        call_ensures(Connect::<FdOrFixed>::new::<I>, (fd, addr), made),
    ensures
        forall|op: &mut Connect<FdOrFixed>, next: Next|
            *op == made
                && #[trigger] call_ensures(<Connect<FdOrFixed> as Attempt>::prepare, (op,), next)
                    ==> next == Next::Call(
                Call::Connect { fd: fd.target().raw_fd, addr_len: addr.len },
            ) && final(op).initiated && final(op).fd == fd.target() && final(op).addr == addr,
        forall|filter: Option<EventFilter>| #[trigger]
            call_ensures(<Connect<FdOrFixed> as Attempt>::filter, (&made,), filter)
                ==> filter == Some(EventFilter::Write(fd.target().raw_fd)),
{
}

/// A connection that was asked for is not asked for again: the pending error of the same socket is queried.
pub proof fn law_connect_goes_on(made: Connect<FdOrFixed>)
    requires
        made.initiated,
    ensures
        forall|op: &mut Connect<FdOrFixed>, next: Next|
            *op == made && #[trigger] call_ensures(<Connect<FdOrFixed> as Attempt>::prepare, (op,), next) ==> next
                == Next::Call(Call::SocketError { fd: made.fd.raw_fd }) && *final(op) == made,
{
}

/// Closing an attached descriptor closes that descriptor, and waits for nothing.
pub proof fn law_close_attached(made: Fd)
    ensures
        forall|op: &mut Fd, next: Next|
            *op == made && #[trigger] call_ensures(<Fd as Attempt>::prepare, (op,), next) ==> next == Next::Call(
                Call::Close { fd: made.raw_fd },
            ) && *final(op) == made,
        forall|filter: Option<EventFilter>| #[trigger]
            call_ensures(<Fd as Attempt>::filter, (&made,), filter) ==> filter is None,
{
}

/// Closing a file or socket closes its descriptor and takes the value away, so that closing it again is an error.
pub proof fn law_close_once<T: IntoRawFd>(value: T)
    ensures
        forall|op: &mut Option<T>, next: Next|
            *op == Some(value) && #[trigger] call_ensures(<Option<T> as Attempt>::prepare, (op,), next) ==> next
                == Next::Call(Call::Close { fd: value.raw_fd() }) && *final(op) is None,
        forall|op: &mut Option<T>, next: Next|
            *op == None::<T> && #[trigger] call_ensures(<Option<T> as Attempt>::prepare, (op,), next) ==> next
                == Next::Done(Err::<usize, IoError>(IoError::AlreadyClosed)) && *final(op) is None,
        forall|op: Option<T>, filter: Option<EventFilter>| #[trigger]
            call_ensures(<Option<T> as Attempt>::filter, (&op,), filter) ==> filter is None,
{
}

/// What was received comes back with the address that was put next to it, as long as the call said.
pub proof fn law_received_from<T>(op: RecvFrom<T>, inner: (T, SockAddr))
    requires
        call_ensures(<RecvFrom<T> as IntoInner>::into_inner, (op,), inner),
    ensures
        inner.0 == op.buffer,
        inner.1.storage == op.addr,
        inner.1.len == op.socklen,
{
}

/// A timeout makes no call: it asks for a timer as long as its delay, every time, and stays as it is.
pub proof fn law_timeout(delay: Duration, made: Timeout)
    requires
        call_ensures(Timeout::new, (delay,), made),
    ensures
        forall|op: &mut Timeout, operated: Operated|
            *op == made && #[trigger] call_ensures(<Timeout as OpCode>::operate, (op,), operated) ==> operated
                == Some(Ok::<usize, IoError>(TIMER_PENDING)) && *final(op) == made,
        forall|asked: Duration| #[trigger]
            call_ensures(<Timeout as OpCode>::timer_delay, (&made,), asked) ==> asked == delay,
        <Timeout as OpCode>::delay(&made) == Some(delay),
{
}

} // verus!
