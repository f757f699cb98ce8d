//! The attempts that the operations make.
//!
//! An operation says which system call to make next; what the call came to decides whether the operation has
//! completed or would block.
use vstd::prelude::*;

use crate::addr::{zeroed, AddrStorage, SockAddr, SOCKADDR_STORAGE_LEN};
use crate::buf::{AsIoSlices, IntoInner, IoBuf, IoBufMut};
use crate::driver::attempts::{wants_timer, Operated, TIMER_PENDING};
use crate::driver::kqueue::{can_wait_for, watch_once, Event, EventFilter, Fd, FdOrFixed, OpCode};
use crate::driver::time::Timeout;
use crate::driver::unix::op::{
    Accept, Connect, Read, ReadAt, Recv, RecvMsgImpl, RecvVectoredImpl, Send, SendMsgImpl,
    SendVectoredImpl, Sync, Write, WriteAt,
};
use crate::driver::unix::{IntoFdOrFixed, IntoRawFd, RawFd};
use crate::error::{IoError, IoResult};
use crate::time::Duration;

verus! {

/// A system call, but for its pointers.
#[derive(Clone, Copy, Debug, PartialEq, Eq, Structural)]
pub enum Call {
    /// Read up to `len` bytes.
    Read { fd: RawFd, len: usize },
    /// Read up to `len` bytes at `offset`.
    Pread { fd: RawFd, len: usize, offset: usize },
    /// Write `len` bytes.
    Write { fd: RawFd, len: usize },
    /// Write `len` bytes at `offset`.
    Pwrite { fd: RawFd, len: usize, offset: usize },
    /// Sync the file; its metadata need not be synchronized if `datasync` is set.
    Fsync { fd: RawFd, datasync: bool },
    /// Accept a connection; there is room for an address of `addr_len` bytes.
    Accept { fd: RawFd, addr_len: u32 },
    /// Connect to an address of `addr_len` bytes.
    Connect { fd: RawFd, addr_len: u32 },
    /// Get the pending error of a socket.
    SocketError { fd: RawFd },
    /// Receive up to `len` bytes.
    Recv { fd: RawFd, len: usize },
    /// Read into `count` buffers.
    Readv { fd: RawFd, count: usize },
    /// Send `len` bytes.
    Send { fd: RawFd, len: usize },
    /// Write from `count` buffers.
    Writev { fd: RawFd, count: usize },
    /// Receive up to `len` bytes and an address of up to `addr_len` bytes.
    RecvFrom { fd: RawFd, len: usize, addr_len: u32 },
    /// Receive a message.
    RecvMsg { fd: RawFd },
    /// Send `len` bytes to an address of `addr_len` bytes.
    SendTo { fd: RawFd, len: usize, addr_len: u32 },
    /// Send a message.
    SendMsg { fd: RawFd },
    /// Close the descriptor.
    Close { fd: RawFd },
}

/// What a system call came to.
#[derive(Clone, Copy, Debug, PartialEq, Eq, Structural)]
pub enum CallOutcome {
    /// It returned this.
    Returned(usize),
    /// It would block, or goes on in the background.
    WouldBlock,
    /// It failed with this error code.
    Failed(i32),
}

/// What an operation does next.
#[derive(Clone, Copy, Debug)]
pub enum Next {
    /// Make this call, and hand the outcome to [`finish`].
    Call(Call),
    /// Nothing: it has come to this result.
    Done(IoResult<usize>),
}

impl Call {
    /// The descriptor that the call is about.
    pub open spec fn raw_fd(self) -> RawFd {
        match self {
            Call::Read { fd, .. } => fd,
            Call::Pread { fd, .. } => fd,
            Call::Write { fd, .. } => fd,
            Call::Pwrite { fd, .. } => fd,
            Call::Fsync { fd, .. } => fd,
            Call::Accept { fd, .. } => fd,
            Call::Connect { fd, .. } => fd,
            Call::SocketError { fd } => fd,
            Call::Recv { fd, .. } => fd,
            Call::Readv { fd, .. } => fd,
            Call::Send { fd, .. } => fd,
            Call::Writev { fd, .. } => fd,
            Call::RecvFrom { fd, .. } => fd,
            Call::RecvMsg { fd } => fd,
            Call::SendTo { fd, .. } => fd,
            Call::SendMsg { fd } => fd,
            Call::Close { fd } => fd,
        }
    }
}

/// The call may have to wait for its descriptor. The others either succeed or fail, and so does any call on a
/// descriptor that cannot exist.
pub open spec fn may_block(call: Call) -> bool {
    !(call is Fsync || call is Close || call is SocketError) && call.raw_fd() >= 0
}

/// The call takes bytes out of buffers, or connects: it waits for its descriptor to be writable. The other calls that
/// may block fill buffers or accept: they wait for it to be readable.
pub open spec fn writes(call: Call) -> bool {
    call is Write || call is Pwrite || call is Writev || call is Send || call is SendTo || call is SendMsg
        || call is Connect
}

/// Whether a call may have to wait for its descriptor.
pub fn can_block(call: Call) -> (can: bool)
    ensures
        can == may_block(call),
{
    match call {
        Call::Fsync { .. } | Call::Close { .. } | Call::SocketError { .. } => false,
        Call::Read { fd, .. }
        | Call::Pread { fd, .. }
        | Call::Write { fd, .. }
        | Call::Pwrite { fd, .. }
        | Call::Accept { fd, .. }
        | Call::Connect { fd, .. }
        | Call::Recv { fd, .. }
        | Call::Readv { fd, .. }
        | Call::Send { fd, .. }
        | Call::Writev { fd, .. }
        | Call::RecvFrom { fd, .. }
        | Call::RecvMsg { fd }
        | Call::SendTo { fd, .. }
        | Call::SendMsg { fd } => fd >= 0,
    }
}

/// What the outcome of a call means for its operation.
pub open spec fn finished(call: Call, outcome: CallOutcome) -> Operated {
    match outcome {
        CallOutcome::WouldBlock => None,
        CallOutcome::Failed(code) => Some(Err(IoError::Os(code))),
        CallOutcome::Returned(value) => if call is SocketError {
            if value == 0 {
                Some(Ok(0))
            } else {
                Some(Err(IoError::Os(value as i32)))
            }
        } else {
            Some(Ok(value))
        },
    }
}

/// What the outcome of a call means for its operation. The pending error of a socket says how connecting it
/// went.
pub fn finish(call: Call, outcome: CallOutcome) -> (operated: Operated)
    requires
        outcome == CallOutcome::WouldBlock ==> may_block(call),
        call is SocketError ==> (outcome matches CallOutcome::Returned(code) ==> code <= i32::MAX),
        outcome matches CallOutcome::Returned(value) ==> value <= isize::MAX,
    ensures
        operated == finished(call, outcome),
        operated is None ==> may_block(call),
        !wants_timer(operated),
{
    match outcome {
        CallOutcome::WouldBlock => None,
        CallOutcome::Failed(code) => Some(Err(IoError::Os(code))),
        CallOutcome::Returned(value) => {
            if let Call::SocketError { .. } = call {
                if value == 0 {
                    Some(Ok(0))
                } else {
                    Some(Err(IoError::Os(value as i32)))
                }
            } else {
                Some(Ok(value))
            }
        },
    }
}

/// An operation that is attempted by system calls.
pub trait Attempt: Sized {
    /// What the operation waits for when it would block; nothing if it completes in one shot.
    spec fn waits_for(&self) -> Option<EventFilter>;

    /// What the operation does next.
    spec fn next(&self) -> Next;

    /// What the operation waits for is that the descriptor of its next call is ready, in the direction of that call.
    proof fn waits_for_its_call(&self)
        ensures
            self.next() matches Next::Call(call) ==> may_block(call) ==> self.waits_for() is Some
                && self.waits_for()->0.raw_fd() == call.raw_fd() && (self.waits_for()->0 is Write <==> writes(
                call,
            )),
    ;

    /// What the operation waits for when it would block; nothing if it completes in one shot.
    fn filter(&self) -> (filter: Option<EventFilter>)
        ensures
            filter == self.waits_for(),
    ;

    /// What the operation does next.
    fn prepare(&mut self) -> (next: Next)
        ensures
            next == old(self).next(),
            next matches Next::Call(call) ==> may_block(call) ==> can_wait_for(old(self).waits_for()) && old(
                self,
            ).waits_for()->0.raw_fd() == call.raw_fd() && (old(self).waits_for()->0 is Write <==> writes(call)),
            final(self).waits_for() == old(self).waits_for(),
    ;

    /// Constructs the kernel event for the operation with the provided user data.
    fn as_event(&self, user_data: usize) -> (event: Event)
        requires
            self.waits_for() is Some,
        ensures
            event == watch_once(self.waits_for()->0, user_data),
    {
        Event::new(self.filter().unwrap(), user_data)
    }
}

impl<T: IoBufMut> Attempt for Read<FdOrFixed, T> {
    open spec fn waits_for(&self) -> Option<EventFilter> {
        Some(EventFilter::Read(self.fd.raw_fd))
    }

    open spec fn next(&self) -> Next {
        Next::Call(Call::Read { fd: self.fd.raw_fd, len: self.buffer.room() as usize })
    }

    proof fn waits_for_its_call(&self) {
    }

    fn filter(&self) -> (filter: Option<EventFilter>) {
        Some(EventFilter::Read(self.fd.as_raw_fd()))
    }

    fn prepare(&mut self) -> (next: Next)
        ensures
            *final(self) == *old(self),
    {
        Next::Call(Call::Read { fd: self.fd.as_raw_fd(), len: self.buffer.buf_capacity() })
    }
}

impl<T: IoBufMut> Attempt for ReadAt<FdOrFixed, T> {
    open spec fn waits_for(&self) -> Option<EventFilter> {
        Some(EventFilter::Read(self.fd.raw_fd))
    }

    open spec fn next(&self) -> Next {
        Next::Call(Call::Pread { fd: self.fd.raw_fd, len: self.buffer.room() as usize, offset: self.offset })
    }

    proof fn waits_for_its_call(&self) {
    }

    fn filter(&self) -> (filter: Option<EventFilter>) {
        Some(EventFilter::Read(self.fd.as_raw_fd()))
    }

    fn prepare(&mut self) -> (next: Next)
        ensures
            *final(self) == *old(self),
    {
        Next::Call(Call::Pread { fd: self.fd.as_raw_fd(), len: self.buffer.buf_capacity(), offset: self.offset })
    }
}

impl<T: IoBuf> Attempt for Write<FdOrFixed, T> {
    open spec fn waits_for(&self) -> Option<EventFilter> {
        Some(EventFilter::Write(self.fd.raw_fd))
    }

    open spec fn next(&self) -> Next {
        Next::Call(Call::Write { fd: self.fd.raw_fd, len: self.buffer.filled() as usize })
    }

    proof fn waits_for_its_call(&self) {
    }

    fn filter(&self) -> (filter: Option<EventFilter>) {
        Some(EventFilter::Write(self.fd.as_raw_fd()))
    }

    fn prepare(&mut self) -> (next: Next)
        ensures
            *final(self) == *old(self),
    {
        Next::Call(Call::Write { fd: self.fd.as_raw_fd(), len: self.buffer.buf_len() })
    }
}

impl<T: IoBuf> Attempt for WriteAt<FdOrFixed, T> {
    open spec fn waits_for(&self) -> Option<EventFilter> {
        Some(EventFilter::Write(self.fd.raw_fd))
    }

    open spec fn next(&self) -> Next {
        Next::Call(Call::Pwrite { fd: self.fd.raw_fd, len: self.buffer.filled() as usize, offset: self.offset })
    }

    proof fn waits_for_its_call(&self) {
    }

    fn filter(&self) -> (filter: Option<EventFilter>) {
        Some(EventFilter::Write(self.fd.as_raw_fd()))
    }

    fn prepare(&mut self) -> (next: Next)
        ensures
            *final(self) == *old(self),
    {
        Next::Call(Call::Pwrite { fd: self.fd.as_raw_fd(), len: self.buffer.buf_len(), offset: self.offset })
    }
}

impl Attempt for Sync<FdOrFixed> {
    open spec fn waits_for(&self) -> Option<EventFilter> {
        None
    }

    open spec fn next(&self) -> Next {
        Next::Call(Call::Fsync { fd: self.fd.raw_fd, datasync: self.datasync })
    }

    proof fn waits_for_its_call(&self) {
    }

    fn filter(&self) -> (filter: Option<EventFilter>) {
        None
    }

    fn prepare(&mut self) -> (next: Next)
        ensures
            *final(self) == *old(self),
    {
        Next::Call(Call::Fsync { fd: self.fd.as_raw_fd(), datasync: self.datasync })
    }
}

impl Attempt for Accept<FdOrFixed> {
    open spec fn waits_for(&self) -> Option<EventFilter> {
        Some(EventFilter::Read(self.fd.raw_fd))
    }

    open spec fn next(&self) -> Next {
        Next::Call(Call::Accept { fd: self.fd.raw_fd, addr_len: self.addr_len })
    }

    proof fn waits_for_its_call(&self) {
    }

    fn filter(&self) -> (filter: Option<EventFilter>) {
        Some(EventFilter::Read(self.fd.as_raw_fd()))
    }

    fn prepare(&mut self) -> (next: Next)
        ensures
            *final(self) == *old(self),
    {
        Next::Call(Call::Accept { fd: self.fd.as_raw_fd(), addr_len: self.addr_len })
    }
}

impl Attempt for Connect<FdOrFixed> {
    open spec fn waits_for(&self) -> Option<EventFilter> {
        Some(EventFilter::Write(self.fd.raw_fd))
    }

    open spec fn next(&self) -> Next {
        if self.initiated {
            Next::Call(Call::SocketError { fd: self.fd.raw_fd })
        } else {
            Next::Call(Call::Connect { fd: self.fd.raw_fd, addr_len: self.addr.len })
        }
    }

    proof fn waits_for_its_call(&self) {
    }

    fn filter(&self) -> (filter: Option<EventFilter>) {
        Some(EventFilter::Write(self.fd.as_raw_fd()))
    }

    fn prepare(&mut self) -> (next: Next)
        ensures
            final(self).initiated,
            final(self).fd == old(self).fd,
            final(self).addr == old(self).addr,
    {
        if !self.initiated {
            self.initiated = true;
            Next::Call(Call::Connect { fd: self.fd.as_raw_fd(), addr_len: self.addr.len() })
        } else {
            Next::Call(Call::SocketError { fd: self.fd.as_raw_fd() })
        }
    }
}

impl<T: IoBufMut> Attempt for Recv<FdOrFixed, T> {
    open spec fn waits_for(&self) -> Option<EventFilter> {
        Some(EventFilter::Read(self.fd.raw_fd))
    }

    open spec fn next(&self) -> Next {
        Next::Call(Call::Recv { fd: self.fd.raw_fd, len: self.buffer.room() as usize })
    }

    proof fn waits_for_its_call(&self) {
    }

    fn filter(&self) -> (filter: Option<EventFilter>) {
        Some(EventFilter::Read(self.fd.as_raw_fd()))
    }

    fn prepare(&mut self) -> (next: Next)
        ensures
            *final(self) == *old(self),
    {
        Next::Call(Call::Recv { fd: self.fd.as_raw_fd(), len: self.buffer.buf_capacity() })
    }
}

impl<T: AsIoSlices> Attempt for RecvVectoredImpl<FdOrFixed, T> {
    open spec fn waits_for(&self) -> Option<EventFilter> {
        Some(EventFilter::Read(self.fd.raw_fd))
    }

    open spec fn next(&self) -> Next {
        Next::Call(Call::Readv { fd: self.fd.raw_fd, count: self.buffer.slices() as usize })
    }

    proof fn waits_for_its_call(&self) {
    }

    fn filter(&self) -> (filter: Option<EventFilter>) {
        Some(EventFilter::Read(self.fd.as_raw_fd()))
    }

    fn prepare(&mut self) -> (next: Next)
        ensures
            *final(self) == *old(self),
    {
        Next::Call(Call::Readv { fd: self.fd.as_raw_fd(), count: self.buffer.io_slices() })
    }
}

impl<T: IoBuf> Attempt for Send<FdOrFixed, T> {
    open spec fn waits_for(&self) -> Option<EventFilter> {
        Some(EventFilter::Write(self.fd.raw_fd))
    }

    open spec fn next(&self) -> Next {
        Next::Call(Call::Send { fd: self.fd.raw_fd, len: self.buffer.filled() as usize })
    }

    proof fn waits_for_its_call(&self) {
    }

    fn filter(&self) -> (filter: Option<EventFilter>) {
        Some(EventFilter::Write(self.fd.as_raw_fd()))
    }

    fn prepare(&mut self) -> (next: Next)
        ensures
            *final(self) == *old(self),
    {
        Next::Call(Call::Send { fd: self.fd.as_raw_fd(), len: self.buffer.buf_len() })
    }
}

impl<T: AsIoSlices> Attempt for SendVectoredImpl<FdOrFixed, T> {
    open spec fn waits_for(&self) -> Option<EventFilter> {
        Some(EventFilter::Write(self.fd.raw_fd))
    }

    open spec fn next(&self) -> Next {
        Next::Call(Call::Writev { fd: self.fd.raw_fd, count: self.buffer.slices() as usize })
    }

    proof fn waits_for_its_call(&self) {
    }

    fn filter(&self) -> (filter: Option<EventFilter>) {
        Some(EventFilter::Write(self.fd.as_raw_fd()))
    }

    fn prepare(&mut self) -> (next: Next)
        ensures
            *final(self) == *old(self),
    {
        Next::Call(Call::Writev { fd: self.fd.as_raw_fd(), count: self.buffer.io_slices() })
    }
}

impl<T: AsIoSlices> Attempt for RecvMsgImpl<FdOrFixed, T> {
    open spec fn waits_for(&self) -> Option<EventFilter> {
        Some(EventFilter::Read(self.fd.raw_fd))
    }

    open spec fn next(&self) -> Next {
        Next::Call(Call::RecvMsg { fd: self.fd.raw_fd })
    }

    proof fn waits_for_its_call(&self) {
    }

    fn filter(&self) -> (filter: Option<EventFilter>) {
        Some(EventFilter::Read(self.fd.as_raw_fd()))
    }

    fn prepare(&mut self) -> (next: Next)
        ensures
            final(self).fd == old(self).fd,
            final(self).buffer == old(self).buffer,
            final(self).addr == old(self).addr,
            final(self).msg == if old(self).msg.name_len == 0 {
                old(self).full_msg()
            } else {
                old(self).msg
            },
    {
        if self.msg.name_len == 0 {
            self.set_msg();
        }
        Next::Call(Call::RecvMsg { fd: self.fd.as_raw_fd() })
    }
}

impl<T: AsIoSlices> Attempt for SendMsgImpl<FdOrFixed, T> {
    open spec fn waits_for(&self) -> Option<EventFilter> {
        Some(EventFilter::Write(self.fd.raw_fd))
    }

    open spec fn next(&self) -> Next {
        Next::Call(Call::SendMsg { fd: self.fd.raw_fd })
    }

    proof fn waits_for_its_call(&self) {
    }

    fn filter(&self) -> (filter: Option<EventFilter>) {
        Some(EventFilter::Write(self.fd.as_raw_fd()))
    }

    fn prepare(&mut self) -> (next: Next)
        ensures
            final(self).fd == old(self).fd,
            final(self).buffer == old(self).buffer,
            final(self).addr == old(self).addr,
            final(self).msg == if old(self).msg.name_len == 0 {
                old(self).full_msg()
            } else {
                old(self).msg
            },
    {
        if self.msg.name_len == 0 {
            self.set_msg();
        }
        Next::Call(Call::SendMsg { fd: self.fd.as_raw_fd() })
    }
}

/// Receive a single piece of data and source address using a single buffer.
#[derive(Debug)]
pub struct RecvFrom<T> {
    /// The descriptor.
    pub fd: FdOrFixed,
    /// The buffer.
    pub buffer: T,
    /// Where the source address is put.
    pub addr: AddrStorage,
    /// How many bytes it has, or may have.
    pub socklen: u32,
}

impl<T> RecvFrom<T> {
    /// Creates [`RecvFrom`].
    pub fn new<I: IntoFdOrFixed<Target = FdOrFixed>>(fd: I, buffer: T) -> (op: Self)
        ensures
            op.fd == fd.target(),
            op.buffer == buffer,
            op.addr.bytes@ == zeroed(),
            op.socklen == SOCKADDR_STORAGE_LEN,
    {
        RecvFrom { fd: fd.into(), buffer, addr: AddrStorage::new(), socklen: SOCKADDR_STORAGE_LEN }
    }
}

impl<T> IntoInner for RecvFrom<T> {
    type Inner = (T, SockAddr);

    open spec fn inner(self) -> (T, SockAddr) {
        (self.buffer, SockAddr { storage: self.addr, len: self.socklen })
    }

    fn into_inner(self) -> (inner: (T, SockAddr)) {
        (self.buffer, SockAddr::new(self.addr, self.socklen))
    }
}

impl<T: IoBufMut> Attempt for RecvFrom<T> {
    open spec fn waits_for(&self) -> Option<EventFilter> {
        Some(EventFilter::Read(self.fd.raw_fd))
    }

    open spec fn next(&self) -> Next {
        Next::Call(Call::RecvFrom { fd: self.fd.raw_fd, len: self.buffer.room() as usize, addr_len: self.socklen })
    }

    proof fn waits_for_its_call(&self) {
    }

    fn filter(&self) -> (filter: Option<EventFilter>) {
        Some(EventFilter::Read(self.fd.as_raw_fd()))
    }

    fn prepare(&mut self) -> (next: Next)
        ensures
            *final(self) == *old(self),
    {
        Next::Call(Call::RecvFrom { fd: self.fd.as_raw_fd(), len: self.buffer.buf_capacity(), addr_len: self.socklen })
    }
}

/// Send a single piece of data from a single buffer to the specified address.
#[derive(Debug)]
pub struct SendTo<T> {
    /// The descriptor.
    pub fd: FdOrFixed,
    /// The buffer.
    pub buffer: T,
    /// The address.
    pub addr: SockAddr,
}

impl<T> SendTo<T> {
    /// Creates [`SendTo`].
    pub fn new<I: IntoFdOrFixed<Target = FdOrFixed>>(fd: I, buffer: T, addr: SockAddr) -> (op: Self)
        ensures
            op.fd == fd.target(),
            op.buffer == buffer,
            op.addr == addr,
    {
        SendTo { fd: fd.into(), buffer, addr }
    }
}

impl<T> IntoInner for SendTo<T> {
    type Inner = T;

    open spec fn inner(self) -> T {
        self.buffer
    }

    fn into_inner(self) -> (inner: T) {
        self.buffer
    }
}

impl<T: IoBuf> Attempt for SendTo<T> {
    open spec fn waits_for(&self) -> Option<EventFilter> {
        Some(EventFilter::Write(self.fd.raw_fd))
    }

    open spec fn next(&self) -> Next {
        Next::Call(Call::SendTo { fd: self.fd.raw_fd, len: self.buffer.filled() as usize, addr_len: self.addr.len })
    }

    proof fn waits_for_its_call(&self) {
    }

    fn filter(&self) -> (filter: Option<EventFilter>) {
        Some(EventFilter::Write(self.fd.as_raw_fd()))
    }

    fn prepare(&mut self) -> (next: Next)
        ensures
            *final(self) == *old(self),
    {
        Next::Call(Call::SendTo { fd: self.fd.as_raw_fd(), len: self.buffer.buf_len(), addr_len: self.addr.len() })
    }
}

/// Close attached file descriptor.
impl Attempt for Fd {
    open spec fn waits_for(&self) -> Option<EventFilter> {
        None
    }

    open spec fn next(&self) -> Next {
        Next::Call(Call::Close { fd: self.raw_fd })
    }

    proof fn waits_for_its_call(&self) {
    }

    fn filter(&self) -> (filter: Option<EventFilter>) {
        None
    }

    fn prepare(&mut self) -> (next: Next)
        ensures
            *final(self) == *old(self),
    {
        Next::Call(Call::Close { fd: self.as_raw_fd() })
    }
}

/// Close some file or socket and set it to None.
impl<T: IntoRawFd> Attempt for Option<T> {
    open spec fn waits_for(&self) -> Option<EventFilter> {
        None
    }

    open spec fn next(&self) -> Next {
        match *self {
            Some(value) => Next::Call(Call::Close { fd: value.raw_fd() }),
            None => Next::Done(Err(IoError::AlreadyClosed)),
        }
    }

    proof fn waits_for_its_call(&self) {
    }

    fn filter(&self) -> (filter: Option<EventFilter>) {
        None
    }

    fn prepare(&mut self) -> (next: Next)
        ensures
            *final(self) is None,
    {
        match self.take() {
            Some(into_raw_fd) => Next::Call(Call::Close { fd: into_raw_fd.into_raw_fd() }),
            None => Next::Done(Err(IoError::AlreadyClosed)),
        }
    }
}

impl OpCode for Timeout {
    open spec fn filter(&self) -> Option<EventFilter> {
        None
    }

    open spec fn delay(&self) -> Option<Duration> {
        Some(self.delay)
    }

    fn operate(&mut self) -> (operated: Operated)
        ensures
            operated == Some(Ok::<usize, IoError>(TIMER_PENDING)),
            *final(self) == *old(self),
    {
        Some(Ok(TIMER_PENDING))
    }

    /// Not relevant to timers: there is no event that a timer waits for.
    fn as_event(&self, user_data: usize) -> (event: Event) {
        Event::new(EventFilter::Read(0), user_data)
    }

    fn timer_delay(&self) -> (delay: Duration) {
        self.delay
    }
}

/// The operation as repeated attempts at connecting leave it: `ops[0]` before the first attempt, and each of the
/// others as [`Attempt::prepare`] leaves the one before.
pub open spec fn connect_attempts(ops: Seq<Connect<FdOrFixed>>) -> bool {
    &&& ops.len() > 0
    &&& forall|i: int|
        #![trigger ops[i + 1]]
        0 <= i < ops.len() - 1 ==> ops[i + 1].initiated && ops[i + 1].fd == ops[i].fd && ops[i + 1].addr
            == ops[i].addr
}

/// What an attempt at connecting comes to, where its call comes to `outcome`.
pub open spec fn attempt_result(op: Connect<FdOrFixed>, outcome: CallOutcome) -> Operated {
    match op.next() {
        Next::Done(result) => Some(result),
        Next::Call(call) => finished(call, outcome),
    }
}

/// Connecting is initiated once: the first attempt asks for the connection, and comes to no result exactly if that
/// would block. However many attempts follow, each of them asks for the pending error of the socket, which does not
/// block, and makes no other call: it comes to a result, and succeeds exactly if there is no such error.
pub proof fn law_connect_is_initiated_once(ops: Seq<Connect<FdOrFixed>>, n: int, outcome: CallOutcome)
    requires
        connect_attempts(ops),
        !ops[0].initiated,
        0 <= n < ops.len(),
        n > 0 ==> outcome !is WouldBlock,
    ensures
        n == 0 ==> {
            &&& ops[n].next() == Next::Call(
                Call::Connect { fd: ops[0].fd.raw_fd, addr_len: ops[0].addr.len },
            )
            &&& attempt_result(ops[n], outcome) is None <==> outcome is WouldBlock
            &&& outcome matches CallOutcome::Returned(value) ==> attempt_result(ops[n], outcome) == Some(
                Ok::<usize, IoError>(value),
            )
        },
        n > 0 ==> {
            &&& ops[n].next() == Next::Call(Call::SocketError { fd: ops[0].fd.raw_fd })
            &&& attempt_result(ops[n], outcome) is Some
            &&& attempt_result(ops[n], outcome)->0 is Ok <==> outcome == CallOutcome::Returned(0)
            &&& outcome == CallOutcome::Returned(0) ==> attempt_result(ops[n], outcome) == Some(
                Ok::<usize, IoError>(0),
            )
            &&& outcome matches CallOutcome::Returned(code) ==> code != 0 ==> attempt_result(
                ops[n],
                outcome,
            ) == Some(Err::<usize, IoError>(IoError::Os(code as i32)))
        },
        outcome matches CallOutcome::Failed(code) ==> attempt_result(ops[n], outcome) == Some(
            Err::<usize, IoError>(IoError::Os(code)),
        ),
{
    lemma_connect_attempts(ops, n);
}

/// All attempts are about the same connection, and all but the first find it initiated.
proof fn lemma_connect_attempts(ops: Seq<Connect<FdOrFixed>>, n: int)
    requires
        connect_attempts(ops),
        0 <= n < ops.len(),
    ensures
        ops[n].fd == ops[0].fd,
        ops[n].addr == ops[0].addr,
        n > 0 ==> ops[n].initiated,
    decreases n,
{
    if n > 0 {
        lemma_connect_attempts(ops, n - 1);
        assert(ops[n - 1 + 1].initiated);
    }
}

} // verus!
